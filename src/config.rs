use vstd::prelude::*;

verus! {

use crate::text::{compare_text, lemma_text_order_equal};
use core::cmp::Ordering;

/// How outbound calls for a cluster authenticate.
#[derive(Debug, Hash, Eq)]
pub enum ConfigSource {
    AssumeRole { role_arn: String },
    Env,
    Profile { name: String },
}

/// A credential source as plain values.
pub enum SourceView {
    AssumeRole(Seq<char>),
    Env,
    Profile(Seq<char>),
}

impl View for ConfigSource {
    type V = SourceView;

    open spec fn view(&self) -> SourceView {
        match self {
            ConfigSource::AssumeRole { role_arn } => SourceView::AssumeRole(role_arn@),
            ConfigSource::Env => SourceView::Env,
            ConfigSource::Profile { name } => SourceView::Profile(name@),
        }
    }
}

pub(crate) fn same_text(a: &str, b: &str) -> (r: bool)
    ensures
        r == (a@ == b@),
{
    proof {
        lemma_text_order_equal(a@, b@);
    }
    match compare_text(a, b) {
        Ordering::Equal => true,
        _ => false,
    }
}

impl PartialEq for ConfigSource {
    fn eq(&self, other: &ConfigSource) -> (r: bool)
        ensures
            r == (self@ == other@),
    {
        match (self, other) {
            (ConfigSource::AssumeRole { role_arn: a }, ConfigSource::AssumeRole { role_arn: b }) => {
                same_text(a.as_str(), b.as_str())
            },
            (ConfigSource::Env, ConfigSource::Env) => true,
            (ConfigSource::Profile { name: a }, ConfigSource::Profile { name: b }) => same_text(
                a.as_str(),
                b.as_str(),
            ),
            _ => false,
        }
    }
}

impl Clone for ConfigSource {
    fn clone(&self) -> (r: ConfigSource)
        ensures
            r@ == self@,
    {
        match self {
            ConfigSource::AssumeRole { role_arn } => ConfigSource::AssumeRole {
                role_arn: role_arn.clone(),
            },
            ConfigSource::Env => ConfigSource::Env,
            ConfigSource::Profile { name } => ConfigSource::Profile { name: name.clone() },
        }
    }
}

/// Copies a list of texts.
pub fn clone_texts(v: &Vec<String>) -> (r: Vec<String>)
    ensures
        texts_view(r@) == texts_view(v@),
        r.len() == v.len(),
{
    let mut out: Vec<String> = Vec::new();
    let mut i: usize = 0;
    while i < v.len()
        invariant
            i <= v.len(),
            texts_view(out@) == texts_view(v@).take(i as int),
        decreases v.len() - i,
    {
        let ghost before = out@;
        let c = v[i].clone();
        out.push(c);
        proof {
            assert(out@ == before.push(c));
            assert(c@ == v@[i as int]@);
            assert(texts_view(out@) =~= texts_view(before).push(c@));
            assert(texts_view(v@).take(i + 1) =~= texts_view(v@).take(i as int).push(v@[i as int]@));
        }
        i = i + 1;
    }
    proof {
        assert(texts_view(v@).take(i as int) =~= texts_view(v@));
    }
    out
}

/// Whether two lists of texts are equal.
pub fn same_texts(a: &Vec<String>, b: &Vec<String>) -> (r: bool)
    ensures
        r == (texts_view(a@) == texts_view(b@)),
{
    if a.len() != b.len() {
        return false;
    }
    let mut i: usize = 0;
    while i < a.len()
        invariant
            i <= a.len(),
            a.len() == b.len(),
            forall|k: int| 0 <= k < i ==> a@[k]@ == b@[k]@,
        decreases a.len() - i,
    {
        if !same_text(a[i].as_str(), b[i].as_str()) {
            proof {
                assert(texts_view(a@)[i as int] != texts_view(b@)[i as int]);
            }
            return false;
        }
        i = i + 1;
    }
    proof {
        assert(texts_view(a@) =~= texts_view(b@));
    }
    true
}

impl vstd::std_specs::cmp::PartialEqSpecImpl for ConfigSource {
    open spec fn obeys_eq_spec() -> bool {
        true
    }

    open spec fn eq_spec(&self, other: &ConfigSource) -> bool {
        self@ == other@
    }
}

/// One configured cluster: its tags, its identifier, the services to watch
/// in it and the credential source to reach it with.
#[derive(Debug)]
pub struct ClusterConfig {
    pub keys: Vec<String>,
    pub arn: String,
    pub services: Vec<String>,
    pub config_source: ConfigSource,
}

/// A cluster descriptor as plain values.
pub struct ClusterView {
    pub keys: Seq<Seq<char>>,
    pub arn: Seq<char>,
    pub services: Seq<Seq<char>>,
    pub config_source: SourceView,
}

impl View for ClusterConfig {
    type V = ClusterView;

    open spec fn view(&self) -> ClusterView {
        ClusterView {
            keys: texts_view(self.keys@),
            arn: self.arn@,
            services: texts_view(self.services@),
            config_source: self.config_source@,
        }
    }
}

impl Clone for ClusterConfig {
    fn clone(&self) -> (r: ClusterConfig)
        ensures
            r@ == self@,
    {
        ClusterConfig {
            keys: clone_texts(&self.keys),
            arn: self.arn.clone(),
            services: clone_texts(&self.services),
            config_source: self.config_source.clone(),
        }
    }
}

/// The clusters of one profile.
#[derive(Debug)]
pub struct Config {
    pub clusters: Vec<ClusterConfig>,
}

/// The views of a list of texts.
pub open spec fn texts_view(v: Seq<String>) -> Seq<Seq<char>> {
    v.map_values(|s: String| s@)
}

pub open spec fn env_word() -> Seq<char> {
    seq!['e', 'n', 'v']
}

pub open spec fn profile_prefix() -> Seq<char> {
    seq!['p', 'r', 'o', 'f', 'i', 'l', 'e', ':']
}

pub open spec fn assume_prefix() -> Seq<char> {
    seq!['a', 's', 's', 'u', 'm', 'e', ':']
}

/// The credential source that a configuration value names, if any:
/// `env`, `profile:<name>` or `assume:<role-arn>`.
pub open spec fn source_named(s: Seq<char>) -> Option<SourceView> {
    if s == env_word() {
        Some(SourceView::Env)
    } else if profile_prefix().is_prefix_of(s) {
        Some(SourceView::Profile(s.skip(profile_prefix().len() as int)))
    } else if assume_prefix().is_prefix_of(s) {
        Some(SourceView::AssumeRole(s.skip(assume_prefix().len() as int)))
    } else {
        None
    }
}

/// Relies on `str::strip_prefix`: the rest of `s` after `prefix`, when `s`
/// starts with `prefix`.
#[verifier::external_body]
fn strip_prefix<'a>(s: &'a str, prefix: &str) -> (r: Option<&'a str>)
    ensures
        r is Some <==> prefix@.is_prefix_of(s@),
        r matches Some(rest) ==> rest@ == s@.skip(prefix@.len() as int),
{
    s.strip_prefix(prefix)
}

/// Reads a credential source from its configuration value.
pub fn parse_config_source(value: &str) -> (r: Option<ConfigSource>)
    ensures
        r matches Some(src) ==> source_named(value@) == Some(src@),
        r is None ==> source_named(value@) is None,
{
    proof {
        reveal_strlit("env");
        reveal_strlit("profile:");
        reveal_strlit("assume:");
        assert("env"@ =~= env_word());
        assert("profile:"@ =~= profile_prefix());
        assert("assume:"@ =~= assume_prefix());
    }
    if same_text(value, "env") {
        Some(ConfigSource::Env)
    } else {
        match strip_prefix(value, "profile:") {
            Some(name) => Some(ConfigSource::Profile { name: name.to_owned() }),
            None => match strip_prefix(value, "assume:") {
                Some(role_arn) => Some(ConfigSource::AssumeRole { role_arn: role_arn.to_owned() }),
                None => None,
            },
        }
    }
}

} // verus!
