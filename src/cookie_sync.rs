use vstd::prelude::*;

use crate::config::{parse_url, parsed_url};
use crate::cookies::{cookies_for_domain, has_expected_cookies, matching, present, applies};
use crate::models::Cookie;

verus! {

/// How a cookie synchronisation ended.
#[derive(Debug, Clone, Copy, PartialEq, Eq, Structural)]
pub enum SyncOutcome {
    /// The browser already held every stored cookie of the domain, or none
    /// is stored for it.
    Present,
    /// The missing cookies were added and the target opened again.
    Loaded,
    Failed,
}

/// What the driver reports back to a cookie synchronisation.
#[derive(Debug, Clone)]
pub enum SyncEvent {
    Begin,
    /// The stored cookies, or `None` when the file could not be read.
    FileRead(Option<Vec<Cookie>>),
    /// The browser's cookies as name and domain, or `None` on an error.
    BrowserCookies(Option<Vec<(String, Option<String>)>>),
    Navigated(bool),
    Added(bool),
}

/// What the driver is to do next for a cookie synchronisation.
#[derive(Debug, Clone)]
pub enum SyncCommand {
    ReadFile(String),
    ReadBrowserCookies,
    Navigate(String),
    AddCookie(Cookie),
    Finish(SyncOutcome),
}

#[derive(Debug, Clone)]
pub enum SyncStage {
    Start,
    ReadingFile,
    ReadingBrowser(Vec<Cookie>),
    OpeningRoot(Vec<Cookie>),
    /// Adding the `k`-th stored cookie of the domain.
    Adding(Vec<Cookie>, usize),
    Reopening,
    Done(SyncOutcome),
}

/// Makes sure the browser holds the stored cookies of the target's domain.
/// When some are missing it opens the domain's root page, adds every stored
/// cookie of the domain and opens the target again.
pub struct CookieSync {
    pub target: String,
    pub domain: String,
    pub root: String,
    pub cookie_file: String,
    pub stage: SyncStage,
}

pub open spec fn sync_finish(o: SyncOutcome) -> (SyncStage, SyncCommand) {
    (SyncStage::Done(o), SyncCommand::Finish(o))
}

/// Add the `k`-th stored cookie of the domain, or open the target again once
/// all are added.
pub open spec fn adding(s: CookieSync, cookies: Vec<Cookie>, k: int) -> (SyncStage, SyncCommand) {
    let m = matching(cookies@, s.domain@, cookies@.len() as int);
    if k < m.len() {
        (SyncStage::Adding(cookies, k as usize), SyncCommand::AddCookie(cookies@[m[k] as int]))
    } else {
        (SyncStage::Reopening, SyncCommand::Navigate(s.target))
    }
}

/// One transition of a cookie synchronisation.
pub open spec fn sync_step(s: CookieSync, e: SyncEvent) -> (SyncStage, SyncCommand) {
    match (s.stage, e) {
        (SyncStage::Start, SyncEvent::Begin) => (
            SyncStage::ReadingFile,
            SyncCommand::ReadFile(s.cookie_file),
        ),
        (SyncStage::ReadingFile, SyncEvent::FileRead(read)) => match read {
            None => sync_finish(SyncOutcome::Failed),
            Some(cookies) => if matching(cookies@, s.domain@, cookies@.len() as int).len() == 0 {
                sync_finish(SyncOutcome::Present)
            } else {
                (SyncStage::ReadingBrowser(cookies), SyncCommand::ReadBrowserCookies)
            },
        },
        (SyncStage::ReadingBrowser(cookies), SyncEvent::BrowserCookies(current)) => match current {
            None => sync_finish(SyncOutcome::Failed),
            Some(cur) => if forall|k: int|
                0 <= k < cookies@.len() && applies(s.domain@, #[trigger] cookies@[k].domain)
                    ==> present(cur@, cookies@[k].name@, s.domain@) {
                sync_finish(SyncOutcome::Present)
            } else {
                (SyncStage::OpeningRoot(cookies), SyncCommand::Navigate(s.root))
            },
        },
        (SyncStage::OpeningRoot(cookies), SyncEvent::Navigated(ok)) => if ok {
            adding(s, cookies, 0)
        } else {
            sync_finish(SyncOutcome::Failed)
        },
        (SyncStage::Adding(cookies, k), SyncEvent::Added(ok)) => if ok {
            adding(s, cookies, k + 1)
        } else {
            sync_finish(SyncOutcome::Failed)
        },
        (SyncStage::Reopening, SyncEvent::Navigated(ok)) => if ok {
            sync_finish(SyncOutcome::Loaded)
        } else {
            sync_finish(SyncOutcome::Failed)
        },
        (SyncStage::Done(o), _) => sync_finish(o),
        _ => sync_finish(SyncOutcome::Failed),
    }
}

/// A copy of a cookie.
pub fn copy_cookie(c: &Cookie) -> (r: Cookie)
    ensures
        r == *c,
{
    Cookie {
        name: c.name.clone(),
        value: c.value.clone(),
        domain: match &c.domain {
            Some(d) => Some(d.clone()),
            None => None,
        },
        path: match &c.path {
            Some(p) => Some(p.clone()),
            None => None,
        },
        secure: c.secure,
        http_only: c.http_only,
        expiry: c.expiry,
    }
}

fn finish_sync(o: SyncOutcome) -> (r: (SyncStage, SyncCommand))
    ensures
        r == sync_finish(o),
{
    (SyncStage::Done(o), SyncCommand::Finish(o))
}

impl CookieSync {
    /// Prepares the synchronisation for `target_url`, or `None` when the URL
    /// does not parse or its host is no domain name. The root page is
    /// `<scheme>://<domain>`.
    pub fn new(target_url: String, cookie_file: String) -> (r: Option<CookieSync>)
        ensures
            match parsed_url(target_url@) {
                Some((scheme, Some(d))) => r matches Some(s) && s.target == target_url
                    && s.domain@ == d && s.root@ == scheme + "://"@ + d && s.cookie_file
                    == cookie_file && s.stage == SyncStage::Start,
                _ => r is None,
            },
    {
        match parse_url(target_url.as_str()) {
            Some((scheme, Some(domain))) => {
                let root = scheme.concat("://").concat(domain.as_str());
                Some(CookieSync { target: target_url, domain, root, cookie_file, stage: SyncStage::Start })
            },
            _ => None,
        }
    }

    fn add_next(&self, cookies: Vec<Cookie>, k: usize) -> (r: (SyncStage, SyncCommand))
        ensures
            r == adding(*self, cookies, k as int),
    {
        let n = cookies.len();
        let m = cookies_for_domain(&cookies, self.domain.as_str());
        if k < m.len() {
            proof {
                lemma_matching_in_range(cookies@, self.domain@, n as int);
            }
            let c = copy_cookie(&cookies[m[k]]);
            (SyncStage::Adding(cookies, k), SyncCommand::AddCookie(c))
        } else {
            (SyncStage::Reopening, SyncCommand::Navigate(self.target.clone()))
        }
    }

    /// Applies one event and returns the next command, as `sync_step` says.
    pub fn advance(&mut self, event: SyncEvent) -> (cmd: SyncCommand)
        ensures
            final(self).target == old(self).target,
            final(self).domain == old(self).domain,
            final(self).root == old(self).root,
            final(self).cookie_file == old(self).cookie_file,
            (final(self).stage, cmd) == sync_step(*old(self), event),
    {
        let mut stage = SyncStage::Start;
        std::mem::swap(&mut self.stage, &mut stage);
        let ghost before = *old(self);
        assert(before.stage == stage);
        let (next, cmd) = match stage {
            SyncStage::Start => match event {
                SyncEvent::Begin => (SyncStage::ReadingFile, SyncCommand::ReadFile(self.cookie_file.clone())),
                _ => finish_sync(SyncOutcome::Failed),
            },
            SyncStage::ReadingFile => match event {
                SyncEvent::FileRead(read) => match read {
                    None => finish_sync(SyncOutcome::Failed),
                    Some(cookies) => if cookies_for_domain(&cookies, self.domain.as_str()).len() == 0 {
                        finish_sync(SyncOutcome::Present)
                    } else {
                        (SyncStage::ReadingBrowser(cookies), SyncCommand::ReadBrowserCookies)
                    },
                },
                _ => finish_sync(SyncOutcome::Failed),
            },
            SyncStage::ReadingBrowser(cookies) => match event {
                SyncEvent::BrowserCookies(current) => match current {
                    None => finish_sync(SyncOutcome::Failed),
                    Some(cur) => if has_expected_cookies(&cookies, &cur, self.domain.as_str()) {
                        finish_sync(SyncOutcome::Present)
                    } else {
                        (SyncStage::OpeningRoot(cookies), SyncCommand::Navigate(self.root.clone()))
                    },
                },
                _ => finish_sync(SyncOutcome::Failed),
            },
            SyncStage::OpeningRoot(cookies) => match event {
                SyncEvent::Navigated(ok) => if ok {
                    self.add_next(cookies, 0)
                } else {
                    finish_sync(SyncOutcome::Failed)
                },
                _ => finish_sync(SyncOutcome::Failed),
            },
            SyncStage::Adding(cookies, k) => match event {
                SyncEvent::Added(ok) => if !ok {
                    finish_sync(SyncOutcome::Failed)
                } else if k < cookies.len() {
                    self.add_next(cookies, k + 1)
                } else {
                    proof {
                        lemma_matching_len(cookies@, self.domain@, cookies@.len() as int);
                    }
                    (SyncStage::Reopening, SyncCommand::Navigate(self.target.clone()))
                },
                _ => finish_sync(SyncOutcome::Failed),
            },
            SyncStage::Reopening => match event {
                SyncEvent::Navigated(ok) => if ok {
                    finish_sync(SyncOutcome::Loaded)
                } else {
                    finish_sync(SyncOutcome::Failed)
                },
                _ => finish_sync(SyncOutcome::Failed),
            },
            SyncStage::Done(o) => finish_sync(o),
        };
        self.stage = next;
        cmd
    }
}

/// Every index that `matching` gives lies below `upto`.
pub proof fn lemma_matching_in_range(cookies: Seq<Cookie>, target: Seq<char>, upto: int)
    requires
        upto <= usize::MAX,
    ensures
        forall|i: int|
            0 <= i < matching(cookies, target, upto).len() ==> #[trigger] matching(
                cookies,
                target,
                upto,
            )[i] < upto,
    decreases upto,
{
    if upto > 0 {
        lemma_matching_in_range(cookies, target, upto - 1);
        let before = matching(cookies, target, upto - 1);
        let m = matching(cookies, target, upto);
        assert forall|i: int| 0 <= i < m.len() implies #[trigger] m[i] < upto by {
            if i < before.len() {
                assert(m[i] == before[i]);
            }
        }
    }
}

/// `matching` gives at most `upto` indices.
pub proof fn lemma_matching_len(cookies: Seq<Cookie>, target: Seq<char>, upto: int)
    ensures
        matching(cookies, target, upto).len() <= if upto < 0 { 0 } else { upto },
    decreases upto,
{
    if upto > 0 {
        lemma_matching_len(cookies, target, upto - 1);
    }
}

} // verus!
