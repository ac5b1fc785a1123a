use vstd::prelude::*;

verus! {

use crate::config::{texts_view, ClusterConfig, ClusterView};
use crate::sort::views;

/// Whether the regular expression `pattern` matches anywhere in `text`.
pub uninterp spec fn regex_matches(pattern: Seq<char>, text: Seq<char>) -> bool;

#[verifier::external_type_specification]
#[verifier::external_body]
pub struct ExRegex(regex::Regex);

/// Relies on `regex::Regex::new`: compiles a pattern, or gives the reason
/// it is not a valid regular expression.
#[verifier::external_body]
fn compile_regex(source: &str) -> (r: Result<regex::Regex, String>) {
    regex::Regex::new(source).map_err(|e| e.to_string())
}

/// A compiled regular expression together with the text it was compiled
/// from.
#[derive(Debug)]
pub struct Pattern {
    source: String,
    compiled: regex::Regex,
}

impl View for Pattern {
    type V = Seq<char>;

    closed spec fn view(&self) -> Seq<char> {
        self.source@
    }
}

/// Relies on `regex::Regex::is_match`: whether the regex compiled from the
/// pattern's text matches anywhere in `text`.
#[verifier::external_body]
fn pattern_is_match(p: &Pattern, text: &str) -> (r: bool)
    ensures
        r == regex_matches(p@, text@),
{
    p.compiled.is_match(text)
}

impl Pattern {
    /// Compiles `source`, or gives the reason it is not a valid regular
    /// expression.
    pub fn new(source: &str) -> (r: Result<Pattern, String>)
        ensures
            r matches Ok(p) ==> p@ == source@,
    {
        match compile_regex(source) {
            Ok(compiled) => Ok(Pattern { source: source.to_owned(), compiled }),
            Err(e) => Err(e),
        }
    }

    /// The text the pattern was compiled from.
    pub fn as_str(&self) -> (r: &str)
        ensures
            r@ == self@,
    {
        self.source.as_str()
    }

    /// Whether the pattern matches anywhere in `text`.
    pub fn is_match(&self, text: &str) -> (r: bool)
        ensures
            r == regex_matches(self@, text@),
    {
        pattern_is_match(self, text)
    }
}

/// The texts of `v` that `pattern` matches, in order.
pub open spec fn matching_texts(pattern: Seq<char>, v: Seq<Seq<char>>) -> Seq<Seq<char>> {
    v.filter(|t: Seq<char>| regex_matches(pattern, t))
}

/// Whether `pattern` matches any of `v`.
pub open spec fn matches_any(pattern: Seq<char>, v: Seq<Seq<char>>) -> bool {
    exists|i: int| 0 <= i < v.len() && regex_matches(pattern, #[trigger] v[i])
}

impl ClusterConfig {
    /// Keeps the cluster when the pattern matches one of its keys.
    pub fn filter_by_cluster_key(self, re: &Pattern) -> (r: Option<ClusterConfig>)
        ensures
            r is Some <==> matches_any(re@, texts_view(self.keys@)),
            r matches Some(c) ==> c == self,
    {
        let mut i: usize = 0;
        while i < self.keys.len()
            invariant
                i <= self.keys.len(),
                forall|k: int| 0 <= k < i ==> !regex_matches(re@, #[trigger] texts_view(self.keys@)[k]),
            decreases self.keys.len() - i,
        {
            if re.is_match(self.keys[i].as_str()) {
                proof {
                    assert(regex_matches(re@, texts_view(self.keys@)[i as int]));
                }
                return Some(self);
            }
            i = i + 1;
        }
        None
    }

    /// Keeps only the services that the pattern matches; drops the cluster
    /// when none is left.
    pub fn filter_by_service_name(self, re: &Pattern) -> (r: Option<ClusterConfig>)
        ensures
            r is None <==> matching_texts(re@, texts_view(self.services@)).len() == 0,
            r matches Some(c) ==> texts_view(c.services@) == matching_texts(
                re@,
                texts_view(self.services@),
            ) && c.keys == self.keys && c.arn == self.arn && c.config_source == self.config_source,
    {
        let ghost all = texts_view(self.services@);
        let mut kept: Vec<String> = Vec::new();
        let mut i: usize = 0;
        proof {
            assert(all.take(0) =~= Seq::<Seq<char>>::empty());
            assert(texts_view(kept@) =~= Seq::<Seq<char>>::empty());
        }
        while i < self.services.len()
            invariant
                i <= self.services.len(),
                all == texts_view(self.services@),
                texts_view(kept@) == matching_texts(re@, all.take(i as int)),
            decreases self.services.len() - i,
        {
            let ghost before = kept@;
            proof {
                assert(all.take(i + 1) =~= all.take(i as int).push(all[i as int]));
                all.take(i as int).lemma_filter_push(all[i as int], |t: Seq<char>| regex_matches(re@, t));
            }
            if re.is_match(self.services[i].as_str()) {
                let s = self.services[i].clone();
                kept.push(s);
                proof {
                    assert(texts_view(kept@) =~= texts_view(before).push(s@));
                }
            }
            i = i + 1;
        }
        proof {
            assert(all.take(i as int) =~= all);
        }
        if kept.len() == 0 {
            return None;
        }
        let mut c = self;
        c.services = kept;
        Some(c)
    }
}

/// What the filters make of one cluster: with a service filter, only its
/// matching services stay and the cluster is dropped when none match; with a
/// key filter, the cluster is dropped unless one of its keys matches.
pub open spec fn filtered_cluster(
    c: ClusterView,
    service_filter: Option<Seq<char>>,
    key_filter: Option<Seq<char>>,
) -> Option<ClusterView> {
    let services = match service_filter {
        Some(s) => matching_texts(s, c.services),
        None => c.services,
    };
    if (service_filter is Some && services.len() == 0) || (key_filter matches Some(k)
        && !matches_any(k, c.keys)) {
        None
    } else {
        Some(ClusterView { services, ..c })
    }
}

/// The clusters that the filters keep, in order.
pub open spec fn selected_clusters(
    cs: Seq<ClusterView>,
    service_filter: Option<Seq<char>>,
    key_filter: Option<Seq<char>>,
) -> Seq<ClusterView>
    decreases cs.len(),
{
    if cs.len() == 0 {
        Seq::empty()
    } else {
        selected_clusters(cs.drop_last(), service_filter, key_filter) + match filtered_cluster(
            cs.last(),
            service_filter,
            key_filter,
        ) {
            Some(c) => seq![c],
            None => Seq::empty(),
        }
    }
}

pub open spec fn pattern_view<'a>(p: Option<&'a Pattern>) -> Option<Seq<char>> {
    match p {
        Some(q) => Some(q@),
        None => None,
    }
}

/// Applies the service and key filters to a profile's clusters.
pub fn select_clusters(
    clusters: &Vec<ClusterConfig>,
    service_filter: Option<&Pattern>,
    key_filter: Option<&Pattern>,
) -> (r: Vec<ClusterConfig>)
    ensures
        views(r@) == selected_clusters(
            views(clusters@),
            pattern_view(service_filter),
            pattern_view(key_filter),
        ),
{
    let ghost all = views(clusters@);
    let ghost sf = pattern_view(service_filter);
    let ghost kf = pattern_view(key_filter);
    let mut out: Vec<ClusterConfig> = Vec::new();
    let mut i: usize = 0;
    proof {
        assert(all.take(0) =~= Seq::<ClusterView>::empty());
        assert(views(out@) =~= Seq::<ClusterView>::empty());
    }
    while i < clusters.len()
        invariant
            i <= clusters.len(),
            all == views(clusters@),
            sf == pattern_view(service_filter),
            kf == pattern_view(key_filter),
            views(out@) == selected_clusters(all.take(i as int), sf, kf),
        decreases clusters.len() - i,
    {
        let c = clusters[i].clone();
        let ghost cv = c@;
        proof {
            assert(all.take(i + 1).drop_last() =~= all.take(i as int));
            assert(all[i as int] == cv);
        }
        let after_services = match service_filter {
            Some(s) => c.filter_by_service_name(s),
            None => Some(c),
        };
        let after_keys = match after_services {
            Some(c2) => match key_filter {
                Some(k) => c2.filter_by_cluster_key(k),
                None => Some(c2),
            },
            None => None,
        };
        let ghost before = out@;
        match after_keys {
            Some(kept) => {
                proof {
                    assert(kept@ =~= filtered_cluster(cv, sf, kf)->0);
                }
                out.push(kept);
                proof {
                    assert(views(out@) =~= views(before).push(kept@));
                }
            },
            None => {},
        }
        i = i + 1;
    }
    proof {
        assert(all.take(i as int) =~= all);
    }
    out
}

/// The pattern a profile name must match.
pub const TAG_REGEX_STR: &'static str = "^[a-z0-9_-]{1,20}$";

/// The name of a profile of cluster descriptors.
#[derive(Debug)]
pub struct Profile(String);

impl View for Profile {
    type V = Seq<char>;

    closed spec fn view(&self) -> Seq<char> {
        self.0@
    }
}

impl Profile {
    /// A profile named `value` when the profile name pattern matches it;
    /// otherwise the reason, which states the pattern.
    pub fn try_from(value: &str) -> (r: Result<Profile, String>)
        ensures
            r matches Ok(p) ==> p@ == value@ && regex_matches(TAG_REGEX_STR@, value@),
            r matches Err(m) ==> m@ == "valid regex: ^[a-z0-9_-]{1,20}$"@,
    {
        match Pattern::new(TAG_REGEX_STR) {
            Ok(re) => if re.is_match(value) {
                Ok(Profile(value.to_owned()))
            } else {
                Err("valid regex: ^[a-z0-9_-]{1,20}$".to_owned())
            },
            Err(_) => Err("valid regex: ^[a-z0-9_-]{1,20}$".to_owned()),
        }
    }

    pub fn name(&self) -> (r: &str)
        ensures
            r@ == self@,
    {
        self.0.as_str()
    }
}

} // verus!
