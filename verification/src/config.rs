//! Validated per-backend configuration: a mapping from enumerated
//! configuration keys to textual values, with an explicit rejection path
//! for duplicate keys, and the conversions that turn caller-supplied
//! values into configuration text.
//!
//! Keys are carried as small integer codes; each backend module assigns a
//! distinct code to each of its enumerated keys.

use vstd::prelude::*;

use crate::error::ErrorKind;

verus! {

/// The mathematical contents of a configuration map built from a list of
/// entries, later entries winning.
pub open spec fn map_of(s: Seq<(u64, String)>) -> Map<u64, Seq<char>>
    decreases s.len(),
{
    if s.len() == 0 {
        Map::empty()
    } else {
        map_of(s.drop_last()).insert(s.last().0, s.last().1@)
    }
}

/// A configuration map from key codes to textual values. Keys are unique.
#[derive(Clone, Debug)]
pub struct ConfigMap {
    entries: Vec<(u64, String)>,
}

impl ConfigMap {
    /// The map's keys are pairwise distinct.
    pub closed spec fn wf(self) -> bool {
        forall|i: int, j: int|
            0 <= i < j < self.entries@.len() ==> (#[trigger] self.entries@[i]).0 != (
            #[trigger] self.entries@[j]).0
    }

    /// The mapping the value represents.
    pub closed spec fn view(self) -> Map<u64, Seq<char>> {
        map_of(self.entries@)
    }

    /// An empty configuration.
    pub fn new() -> (r: ConfigMap)
        ensures
            r.wf(),
            r.view() == Map::<u64, Seq<char>>::empty(),
    {
        ConfigMap { entries: Vec::new() }
    }

    /// The number of keys configured.
    pub fn len(&self) -> (r: usize)
        requires
            self.wf(),
        ensures
            r == self.view().dom().len(),
    {
        proof {
            lemma_map_of_entries(self.entries@);
        }
        self.entries.len()
    }

    /// Find the position holding `key`.
    fn find(&self, key: u64) -> (r: Option<usize>)
        ensures
            r is Some ==> r->0 < self.entries@.len() && self.entries@[r->0 as int].0 == key,
            r is None ==> forall|i: int| 0 <= i < self.entries@.len() ==> (
            #[trigger] self.entries@[i]).0 != key,
    {
        let n = self.entries.len();
        let mut i: usize = 0;
        while i < n
            invariant
                n == self.entries@.len(),
                i <= n,
                forall|j: int| 0 <= j < i ==> (#[trigger] self.entries@[j]).0 != key,
            decreases n - i,
        {
            if self.entries[i].0 == key {
                return Some(i);
            }
            i = i + 1;
        }
        None
    }

    /// The value configured under `key`, if any.
    pub fn get(&self, key: u64) -> (r: Option<&String>)
        requires
            self.wf(),
        ensures
            r is Some <==> self.view().dom().contains(key),
            r is Some ==> r->0@ == self.view()[key],
    {
        proof {
            lemma_map_of_entries(self.entries@);
        }
        match self.find(key) {
            Some(i) => Some(&self.entries[i].1),
            None => {
                proof {
                    if self.view().dom().contains(key) {
                        let w = choose|w: int|
                            0 <= w < self.entries@.len() && (#[trigger] self.entries@[w]).0 == key;
                    }
                }
                None
            },
        }
    }

    /// Whether `key` is configured.
    pub fn contains_key(&self, key: u64) -> (r: bool)
        requires
            self.wf(),
        ensures
            r == self.view().dom().contains(key),
    {
        self.get(key).is_some()
    }

    /// Configure `key` as `val`, failing with `Generic` — and leaving the
    /// map unchanged — if and only if `key` is already configured.
    pub fn insert_raising_if_exists(&mut self, key: u64, val: String) -> (r: Result<
        (),
        ErrorKind,
    >)
        requires
            old(self).wf(),
        ensures
            final(self).wf(),
            old(self).view().dom().contains(key) ==> r == Err::<(), ErrorKind>(ErrorKind::Generic)
                && final(self).view() == old(self).view(),
            !old(self).view().dom().contains(key) ==> r == Ok::<(), ErrorKind>(())
                && final(self).view() == old(self).view().insert(key, val@),
    {
        proof {
            lemma_map_of_entries(self.entries@);
        }
        if self.contains_key(key) {
            Err(ErrorKind::Generic)
        } else {
            self.entries.push((key, val));
            proof {
                assert(self.entries@.drop_last() =~= old(self).entries@);
            }
            Ok(())
        }
    }

    /// Configure `key` as `val` only if it is not configured yet; parts of
    /// a URL never override configuration passed explicitly.
    pub fn insert_if_not_exists(&mut self, key: u64, val: String)
        requires
            old(self).wf(),
        ensures
            final(self).wf(),
            old(self).view().dom().contains(key) ==> final(self).view() == old(self).view(),
            !old(self).view().dom().contains(key) ==> final(self).view()
                == old(self).view().insert(key, val@),
    {
        proof {
            lemma_map_of_entries(self.entries@);
        }
        if !self.contains_key(key) {
            self.entries.push((key, val));
            proof {
                assert(self.entries@.drop_last() =~= old(self).entries@);
            }
        }
    }

    /// Merge `other` into this map, failing with `Generic` if and only if
    /// the two configure a key in common.
    pub fn merge(self, other: ConfigMap) -> (r: Result<ConfigMap, ErrorKind>)
        requires
            self.wf(),
            other.wf(),
        ensures
            r is Ok <==> self.view().dom().disjoint(other.view().dom()),
            r is Err ==> r == Err::<ConfigMap, ErrorKind>(ErrorKind::Generic),
            r is Ok ==> r->Ok_0.wf() && r->Ok_0.view() == self.view().union_prefer_right(
                other.view(),
            ),
    {
        proof {
            lemma_map_of_entries(self.entries@);
            lemma_map_of_entries(other.entries@);
        }
        let ghost others = other.entries@;
        let mut acc = self;
        let mut rest = other.entries;
        let n0 = rest.len();
        proof {
            assert(others.len() == n0);
        }
        let ghost selfview = acc.view();
        let mut taken: usize = 0;
        while rest.len() > 0
            invariant
                acc.wf(),
                other.view() == map_of(others),
                self.view() == selfview,
                forall|i: int, j: int|
                    0 <= i < j < others.len() ==> (#[trigger] others[i]).0 != (
                    #[trigger] others[j]).0,
                taken + rest.len() == others.len(),
                others.len() <= usize::MAX,
                rest@ == others.skip(taken as int),
                acc.view() == selfview.union_prefer_right(map_of(others.take(taken as int))),
                forall|j: int| 0 <= j < taken ==> !selfview.dom().contains((#[trigger] others[j]).0),
                forall|k: u64|
                    map_of(others.take(taken as int)).dom().contains(k) ==> exists|j: int|
                        0 <= j < taken && (#[trigger] others[j]).0 == k,
            decreases rest.len(),
        {
            let entry = rest.remove(0);
            proof {
                assert(entry == others[taken as int]);
            }
            let (key, val) = entry;
            match acc.insert_raising_if_exists(key, val) {
                Ok(_) => {},
                Err(e) => {
                    proof {
                        // The duplicate key lies in the original map: it
                        // cannot come from the earlier entries of `other`,
                        // whose keys are distinct from this one.
                        let kk = others[taken as int].0;
                        if !selfview.dom().contains(kk) {
                            assert(map_of(others.take(taken as int)).dom().contains(kk));
                            let j = choose|j: int| 0 <= j < taken && (#[trigger] others[j]).0 == kk;
                            assert(others[j].0 != others[taken as int].0);
                        }
                        assert(other.view().dom().contains(kk)) by {
                            lemma_map_of_entries(others);
                        }
                    }
                    return Err(ErrorKind::Generic);
                },
            }
            taken = taken + 1;
            proof {
                assert(rest@ =~= others.skip(taken as int));
                assert(others.take(taken as int).drop_last() =~= others.take(taken as int - 1));
                assert(acc.view() =~= selfview.union_prefer_right(
                    map_of(others.take(taken as int)),
                ));
                assert forall|k: u64|
                    map_of(others.take(taken as int)).dom().contains(k) implies exists|j: int|
                    0 <= j < taken && (#[trigger] others[j]).0 == k by {
                    if k != others[taken - 1].0 {
                        let j = choose|j: int| 0 <= j < taken - 1 && (#[trigger] others[j]).0 == k;
                    }
                }
            }
        }
        proof {
            assert(others.take(taken as int) =~= others);
            assert forall|k: u64| other.view().dom().contains(k) implies !selfview.dom().contains(
                k,
            ) by {
                lemma_map_of_entries(others);
                let j = choose|j: int| 0 <= j < others.len() && (#[trigger] others[j]).0 == k;
            }
            assert(acc.view() =~= selfview.union_prefer_right(other.view()));
        }
        Ok(acc)
    }
}

/// Combine an optional base configuration with optional extra keyword
/// configuration; both present, they must not overlap.
pub fn combine_config_kwargs(config: Option<ConfigMap>, kwargs: Option<ConfigMap>) -> (r: Result<
    ConfigMap,
    ErrorKind,
>)
    requires
        config is Some ==> config->0.wf(),
        kwargs is Some ==> kwargs->0.wf(),
    ensures
        config is None && kwargs is None ==> r is Ok && r->Ok_0.view() == Map::<
            u64,
            Seq<char>,
        >::empty(),
        config is Some && kwargs is None ==> r == Ok::<ConfigMap, ErrorKind>(config->0),
        config is None && kwargs is Some ==> r == Ok::<ConfigMap, ErrorKind>(kwargs->0),
        config is Some && kwargs is Some ==> {
            &&& (r is Ok <==> config->0.view().dom().disjoint(kwargs->0.view().dom()))
            &&& r is Ok ==> r->Ok_0.view() == config->0.view().union_prefer_right(
                kwargs->0.view(),
            )
            &&& r is Err ==> r == Err::<ConfigMap, ErrorKind>(ErrorKind::Generic)
        },
        r is Ok ==> r->Ok_0.wf(),
{
    match (config, kwargs) {
        (None, None) => Ok(ConfigMap::new()),
        (Some(c), None) => Ok(c),
        (None, Some(k)) => Ok(k),
        (Some(c), Some(k)) => c.merge(k),
    }
}

/// With pairwise-distinct keys, the represented mapping holds exactly the
/// listed entries.
pub proof fn lemma_map_of_entries(s: Seq<(u64, String)>)
    requires
        forall|i: int, j: int|
            0 <= i < j < s.len() ==> (#[trigger] s[i]).0 != (#[trigger] s[j]).0,
    ensures
        forall|k: u64|
            #[trigger] map_of(s).dom().contains(k) ==> exists|i: int|
                0 <= i < s.len() && (#[trigger] s[i]).0 == k,
        forall|i: int|
            0 <= i < s.len() ==> map_of(s).dom().contains((#[trigger] s[i]).0) && map_of(s)[s[i].0]
                == s[i].1@,
        map_of(s).dom().finite(),
        map_of(s).dom().len() == s.len(),
    decreases s.len(),
{
    if s.len() > 0 {
        let dl = s.drop_last();
        lemma_map_of_entries(dl);
        assert(forall|i: int| 0 <= i < dl.len() ==> s[i] == dl[i]);
        assert forall|i: int|
            0 <= i < s.len() implies map_of(s).dom().contains((#[trigger] s[i]).0) && map_of(
            s,
        )[s[i].0] == s[i].1@ by {
            if i < s.len() - 1 {
                assert(dl[i] == s[i]);
                assert(s[i].0 != s.last().0);
            }
        }
        assert(!map_of(dl).dom().contains(s.last().0)) by {
            if map_of(dl).dom().contains(s.last().0) {
                let w = choose|w: int| 0 <= w < dl.len() && (#[trigger] dl[w]).0 == s.last().0;
                assert(s[w].0 != s.last().0);
            }
        }
    }
}

/// A caller-supplied configuration value: a boolean, a duration, or text.
pub enum ConfigInput {
    Bool(bool),
    /// A duration given as whole seconds plus a sub-second nanosecond part
    /// below one billion.
    Duration { secs: u64, nanos: u32 },
    Text(String),
}

/// The text that `humantime` renders for a duration; it depends on the
/// seconds and nanoseconds alone.
pub uninterp spec fn humantime_duration_text(secs: u64, nanos: u32) -> Seq<char>;

/// Relies on humantime::format_duration: the rendering is a pure function
/// of the duration, and a zero duration renders as `0s`.
#[verifier::external_body]
fn format_duration_text(secs: u64, nanos: u32) -> (r: String)
    requires
        nanos < 1_000_000_000,
    ensures
        r@ == humantime_duration_text(secs, nanos),
        secs == 0 && nanos == 0 ==> r@ == "0s"@,
{
    humantime::format_duration(core::time::Duration::new(secs, nanos)).to_string()
}

/// The configuration text for a caller-supplied value: `true`/`false` for
/// a boolean, the `humantime` rendering for a duration, text unchanged.
pub fn config_value(v: ConfigInput) -> (r: String)
    requires
        v matches ConfigInput::Duration { secs, nanos } ==> nanos < 1_000_000_000,
    ensures
        v matches ConfigInput::Bool(b) ==> r@ == (if b {
            "true"@
        } else {
            "false"@
        }),
        v matches ConfigInput::Duration { secs, nanos } ==> {
            &&& r@ == humantime_duration_text(secs, nanos)
            &&& (secs == 0 && nanos == 0 ==> r@ == "0s"@)
        },
        v matches ConfigInput::Text(t) ==> r@ == t@,
{
    match v {
        ConfigInput::Bool(true) => "true".to_owned(),
        ConfigInput::Bool(false) => "false".to_owned(),
        ConfigInput::Duration { secs, nanos } => format_duration_text(secs, nanos),
        ConfigInput::Text(t) => t,
    }
}

} // verus!
