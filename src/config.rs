use vstd::prelude::*;

use crate::text::same_text;

verus! {

/// One loop annotation: run the instructions `from_action_num..=to_action_num`
/// `times` times in place of their normal single pass.
#[derive(Debug, Clone, Copy, PartialEq, Eq, Structural)]
pub struct LoopConfig {
    /// Number of times to loop
    pub times: u32,
    /// First index of the repeated block
    pub from_action_num: u32,
    /// Last index of the repeated block (inclusive)
    pub to_action_num: u32,
}

impl LoopConfig {
    pub open spec fn well_formed(&self) -> bool {
        self.from_action_num <= self.to_action_num
    }
}

/// Settings of one domain.
#[derive(Debug)]
pub struct DomainConfig {
    /// Path to the instruction file for this domain
    pub instructions: String,
    /// Optional selectors to skip if found
    pub skip_elements: Option<Vec<String>>,
    /// Optional loop configurations
    pub loop_config: Option<Vec<LoopConfig>>,
    /// Optional cookie file path for this domain
    pub cookie_file: Option<String>,
}

/// All domains' settings, keyed by bare host name.
#[derive(Debug)]
pub struct ConfigYaml {
    pub domains: Vec<(String, DomainConfig)>,
}

/// Why a domain's instruction file could not be found.
#[derive(Debug, Clone, Copy, PartialEq, Eq, Structural)]
pub enum ConfigError {
    /// No entry for the domain.
    NoConfiguration,
    /// The URL has no domain name as its host, or does not parse.
    InvalidDomain,
}

/// Where a domain's instructions are, and its skip selectors. The file may
/// still be missing: a run checks that it exists before going on.
#[derive(Debug)]
pub struct InstructionLocation {
    pub path: String,
    pub skip_elements: Option<Vec<String>>,
}

impl ConfigYaml {
    /// Each domain appears once.
    pub open spec fn wf(&self) -> bool {
        forall|i: int, j: int|
            0 <= i < j < self.domains@.len() ==> #[trigger] self.domains@[i].0@
                != #[trigger] self.domains@[j].0@
    }

    /// Get configuration for a specific domain
    pub fn get_domain_config(&self, domain: &str) -> (r: Option<&DomainConfig>)
        ensures
            r matches Some(c) ==> exists|j: int|
                0 <= j < self.domains@.len() && #[trigger] self.domains@[j].0@ == domain@
                    && self.domains@[j].1 == *c,
            r is None ==> forall|j: int|
                0 <= j < self.domains@.len() ==> #[trigger] self.domains@[j].0@ != domain@,
    {
        let mut i: usize = 0;
        while i < self.domains.len()
            invariant
                i <= self.domains@.len(),
                forall|j: int| 0 <= j < i ==> #[trigger] self.domains@[j].0@ != domain@,
            decreases self.domains@.len() - i,
        {
            if same_text(self.domains[i].0.as_str(), domain) {
                return Some(&self.domains[i].1);
            }
            i = i + 1;
        }
        None
    }
}

/// Relies on std's `Path::is_absolute`. What counts as absolute differs
/// between platforms, so nothing is stated of the answer.
#[verifier::external_body]
fn path_is_absolute(p: &str) -> (r: bool) {
    std::path::Path::new(p).is_absolute()
}

/// Relies on std's `Path::join`, which resolves `p` against `base` by the
/// platform's rules; nothing is stated of the result.
#[verifier::external_body]
fn join_path(base: &str, p: &str) -> (r: String) {
    std::path::Path::new(base).join(p).to_string_lossy().into_owned()
}

/// The location of a domain's instruction file, given whether its configured
/// path is absolute and that path joined to the configuration's directory:
/// an absolute path is taken as it is, a relative one resolved.
pub fn locate_instruction_file(dc: &DomainConfig, absolute: bool, joined: String) -> (loc:
    InstructionLocation)
    ensures
        loc.path@ == (if absolute {
            dc.instructions@
        } else {
            joined@
        }),
        same_strings_opt(dc.skip_elements, loc.skip_elements),
{
    let skip_elements = clone_strings_opt(&dc.skip_elements);
    let path = if absolute {
        dc.instructions.clone()
    } else {
        joined
    };
    InstructionLocation { path, skip_elements }
}

/// Looks up the domain's instruction file: its configured path, resolved
/// against `config_dir` when relative (see `locate_instruction_file`), and
/// its skip selectors.
pub fn find_instruction_file_for_domain(config: &ConfigYaml, config_dir: &str, domain: &str) -> (r:
    Result<InstructionLocation, ConfigError>)
    ensures
        r is Err <==> forall|j: int|
            0 <= j < config.domains@.len() ==> #[trigger] config.domains@[j].0@ != domain@,
        r is Err ==> r == Err::<InstructionLocation, ConfigError>(ConfigError::NoConfiguration),
        r matches Ok(loc) ==> exists|j: int|
            0 <= j < config.domains@.len() && #[trigger] config.domains@[j].0@ == domain@
                && same_strings_opt(config.domains@[j].1.skip_elements, loc.skip_elements),
{
    match config.get_domain_config(domain) {
        None => Err(ConfigError::NoConfiguration),
        Some(dc) => {
            let absolute = path_is_absolute(dc.instructions.as_str());
            let joined = join_path(config_dir, dc.instructions.as_str());
            Ok(locate_instruction_file(dc, absolute, joined))
        },
    }
}

/// Both absent, or both present with the same strings.
pub open spec fn same_strings_opt(a: Option<Vec<String>>, b: Option<Vec<String>>) -> bool {
    match (a, b) {
        (Some(x), Some(y)) => x@ == y@,
        (None, None) => true,
        _ => false,
    }
}

/// A copy of a list of strings.
pub fn clone_strings(v: &Vec<String>) -> (r: Vec<String>)
    ensures
        r@ == v@,
{
    let mut r: Vec<String> = Vec::new();
    let mut i: usize = 0;
    while i < v.len()
        invariant
            i <= v@.len(),
            r@ == v@.subrange(0, i as int),
        decreases v@.len() - i,
    {
        r.push(v[i].clone());
        assert(r@ =~= v@.subrange(0, i + 1));
        i = i + 1;
    }
    assert(v@.subrange(0, i as int) =~= v@);
    r
}

/// A copy of an optional list of strings.
pub fn clone_strings_opt(v: &Option<Vec<String>>) -> (r: Option<Vec<String>>)
    ensures
        same_strings_opt(*v, r),
{
    match v {
        Some(x) => Some(clone_strings(x)),
        None => None,
    }
}

/// Whether a URL parses, and if so its scheme and the domain name of its
/// host (`None` for an IP address or no host).
pub uninterp spec fn parsed_url(url: Seq<char>) -> Option<(Seq<char>, Option<Seq<char>>)>;

/// The host name of a URL, when it parses and its host is a domain name.
pub open spec fn url_domain_of(url: Seq<char>) -> Option<Seq<char>> {
    match parsed_url(url) {
        Some((_, Some(d))) => Some(d),
        _ => None,
    }
}

/// Relies on url's `Url::parse`: `None` when the text is no valid URL, else
/// the scheme as `Url::scheme` gives it and the domain name of the host as
/// `Url::domain` gives it.
#[verifier::external_body]
pub(crate) fn parse_url(url: &str) -> (r: Option<(String, Option<String>)>)
    ensures
        match r {
            None => parsed_url(url@) is None,
            Some((scheme, None)) => parsed_url(url@) == Some((scheme@, None::<Seq<char>>)),
            Some((scheme, Some(d))) => parsed_url(url@) == Some((scheme@, Some(d@))),
        },
{
    url::Url::parse(url).ok().map(|u| (u.scheme().to_string(), u.domain().map(|d| d.to_string())))
}

/// Convenience function to get domain from a URL
pub fn get_domain_from_url(url: &str) -> (r: Result<String, ConfigError>)
    ensures
        r matches Ok(d) ==> url_domain_of(url@) == Some(d@),
        r is Err ==> url_domain_of(url@) is None && r == Err::<String, ConfigError>(
            ConfigError::InvalidDomain,
        ),
{
    match parse_url(url) {
        Some((_, Some(d))) => Ok(d),
        _ => Err(ConfigError::InvalidDomain),
    }
}

} // verus!
