use vstd::prelude::*;
use crate::util::chars::{chars_eq, chars_of};

verus! {

/// A value in the configuration of a store: a number, a text, or a flag that
/// is present without a value that the store reads.
pub enum ConfigValue {
    Int(i32),
    Str(String),
    Flag,
}

/// The spec form of a configuration value.
pub enum ConfigValueView {
    Int(i32),
    Str(Seq<char>),
    Flag,
}

impl View for ConfigValue {
    type V = ConfigValueView;

    open spec fn view(&self) -> ConfigValueView {
        match self {
            ConfigValue::Int(i) => ConfigValueView::Int(*i),
            ConfigValue::Str(s) => ConfigValueView::Str(s@),
            ConfigValue::Flag => ConfigValueView::Flag,
        }
    }
}

/// The configuration of a store: a map from names to values, where a later
/// setting of a name replaces an earlier one.
pub struct StoreConfig {
    entries: Vec<(String, ConfigValue)>,
}

/// The map that a list of settings denotes, later settings winning.
pub open spec fn settings_map(entries: Seq<(Seq<char>, ConfigValueView)>) -> Map<Seq<char>, ConfigValueView>
    decreases entries.len(),
{
    if entries.len() == 0 {
        Map::empty()
    } else {
        settings_map(entries.drop_last()).insert(entries.last().0, entries.last().1)
    }
}

impl StoreConfig {
    /// The settings in the order in which they were made.
    pub closed spec fn settings(&self) -> Seq<(Seq<char>, ConfigValueView)> {
        Seq::new(self.entries@.len(), |i: int| (self.entries@[i].0@, self.entries@[i].1@))
    }

    /// The configuration as a map.
    pub open spec fn map(&self) -> Map<Seq<char>, ConfigValueView> {
        settings_map(self.settings())
    }

    /// An empty configuration.
    pub fn new() -> (c: StoreConfig)
        ensures
            c.map() == Map::<Seq<char>, ConfigValueView>::empty(),
    {
        let c = StoreConfig { entries: Vec::new() };
        proof {
            assert(c.settings() =~= Seq::<(Seq<char>, ConfigValueView)>::empty());
        }
        c
    }

    /// Sets `key` to `value`.
    pub fn insert(&mut self, key: String, value: ConfigValue)
        ensures
            final(self).map() == old(self).map().insert(key@, value@),
    {
        let ghost kv = (key@, value@);
        self.entries.push((key, value));
        proof {
            assert(self.settings().drop_last() =~= old(self).settings());
            assert(self.settings().last() == kv);
        }
    }

    /// The value of `key`, if set.
    pub fn get(&self, key: &str) -> (r: Option<&ConfigValue>)
        ensures
            match r {
                Some(v) => self.map().contains_key(key@) && v@ == self.map()[key@],
                None => !self.map().contains_key(key@),
            },
    {
        let kc = chars_of(key);
        let mut i = self.entries.len();
        proof {
            let all = self.settings();
            assert(all.subrange(0, i as int) =~= all);
            assert(all.subrange(i as int, all.len() as int) =~= Seq::<(Seq<char>, ConfigValueView)>::empty());
            assert(settings_map(all).union_prefer_right(Map::empty()) =~= settings_map(all));
        }
        while i > 0
            invariant
                i <= self.entries@.len(),
                kc@ == key@,
                settings_map(self.settings()) == settings_map(self.settings().subrange(0, i as int)).union_prefer_right(
                    settings_map(self.settings().subrange(i as int, self.settings().len() as int)),
                ),
                !settings_map(self.settings().subrange(i as int, self.settings().len() as int)).contains_key(key@),
            decreases i,
        {
            let ghost pre = self.settings().subrange(0, i as int);
            let c = chars_of(self.entries[i - 1].0.as_str());
            if chars_eq(c.as_slice(), kc.as_slice()) {
                proof {
                    assert(pre.last() == self.settings()[i - 1]);
                    assert(settings_map(pre).contains_key(key@));
                    assert(settings_map(pre)[key@] == self.entries@[i - 1].1@);
                }
                return Some(&self.entries[i - 1].1);
            }
            proof {
                let post = self.settings().subrange(i as int, self.settings().len() as int);
                let post2 = self.settings().subrange(i - 1, self.settings().len() as int);
                lemma_settings_map_cons(self.settings()[i - 1], post);
                assert(post2 =~= seq![self.settings()[i - 1]] + post);
                assert(pre.drop_last() =~= self.settings().subrange(0, i - 1));
                assert(settings_map(pre) == settings_map(pre.drop_last()).insert(pre.last().0, pre.last().1));
                assert(settings_map(pre.drop_last()).union_prefer_right(settings_map(post2)) =~= settings_map(
                    pre,
                ).union_prefer_right(settings_map(post)));
            }
            i = i - 1;
        }
        proof {
            assert(self.settings().subrange(0, 0) =~= Seq::<(Seq<char>, ConfigValueView)>::empty());
            assert(self.settings().subrange(0, self.settings().len() as int) =~= self.settings());
        }
        None
    }

    /// Whether `key` is set.
    pub fn contains_key(&self, key: &str) -> (r: bool)
        ensures
            r == self.map().contains_key(key@),
    {
        self.get(key).is_some()
    }
}

impl ConfigValue {
    /// A copy of the value.
    pub fn copy(&self) -> (r: ConfigValue)
        ensures
            r@ == self@,
    {
        match self {
            ConfigValue::Int(i) => ConfigValue::Int(*i),
            ConfigValue::Str(s) => ConfigValue::Str(s.clone()),
            ConfigValue::Flag => ConfigValue::Flag,
        }
    }
}

impl StoreConfig {
    /// Removes `key` and gives the value it had, if it was set.
    pub fn remove(&mut self, key: &str) -> (r: Option<ConfigValue>)
        ensures
            final(self).map() == old(self).map().remove(key@),
            match r {
                Some(v) => old(self).map().contains_key(key@) && v@ == old(self).map()[key@],
                None => !old(self).map().contains_key(key@),
            },
    {
        let kc = chars_of(key);
        let mut kept: Vec<(String, ConfigValue)> = Vec::new();
        let mut found: Option<ConfigValue> = None;
        let ghost all = self.settings();
        let mut i: usize = 0;
        proof {
            let k0 = StoreConfig { entries: kept };
            assert(k0.settings() =~= Seq::<(Seq<char>, ConfigValueView)>::empty());
            assert(all.subrange(0, 0) =~= Seq::<(Seq<char>, ConfigValueView)>::empty());
            assert(settings_map(Seq::<(Seq<char>, ConfigValueView)>::empty()).remove(key@) =~= settings_map(
                Seq::<(Seq<char>, ConfigValueView)>::empty(),
            ));
        }
        while i < self.entries.len()
            invariant
                kc@ == key@,
                all == self.settings(),
                i <= self.entries@.len(),
                settings_map(Seq::new(kept@.len(), |j: int| (kept@[j].0@, kept@[j].1@))) == settings_map(
                    all.subrange(0, i as int),
                ).remove(key@),
                match found {
                    Some(v) => settings_map(all.subrange(0, i as int)).contains_key(key@) && v@ == settings_map(
                        all.subrange(0, i as int),
                    )[key@],
                    None => !settings_map(all.subrange(0, i as int)).contains_key(key@),
                },
            decreases self.entries@.len() - i,
        {
            let ghost before = Seq::new(kept@.len(), |j: int| (kept@[j].0@, kept@[j].1@));
            let ghost pre = all.subrange(0, i as int);
            let ghost e = all[i as int];
            proof {
                assert(all.subrange(0, i + 1).drop_last() =~= pre);
                assert(all.subrange(0, i + 1).last() == e);
            }
            let c = chars_of(self.entries[i].0.as_str());
            if chars_eq(c.as_slice(), kc.as_slice()) {
                found = Some(self.entries[i].1.copy());
                proof {
                    assert(settings_map(pre).insert(e.0, e.1).remove(key@) =~= settings_map(pre).remove(key@));
                }
            } else {
                let k = self.entries[i].0.clone();
                let v = self.entries[i].1.copy();
                kept.push((k, v));
                proof {
                    let after = Seq::new(kept@.len(), |j: int| (kept@[j].0@, kept@[j].1@));
                    assert(after.drop_last() =~= before);
                    assert(after.last() == e);
                    assert(settings_map(pre).remove(key@).insert(e.0, e.1) =~= settings_map(pre).insert(
                        e.0,
                        e.1,
                    ).remove(key@));
                }
            }
            i = i + 1;
        }
        proof {
            assert(all.subrange(0, i as int) =~= all);
        }
        self.entries = kept;
        found
    }
}

/// The map of one setting followed by others.
pub proof fn lemma_settings_map_cons(first: (Seq<char>, ConfigValueView), rest: Seq<(Seq<char>, ConfigValueView)>)
    ensures
        settings_map(seq![first] + rest) == Map::<Seq<char>, ConfigValueView>::empty().insert(
            first.0,
            first.1,
        ).union_prefer_right(settings_map(rest)),
    decreases rest.len(),
{
    if rest.len() == 0 {
        assert(seq![first] + rest =~= seq![first]);
        assert(settings_map(rest) == Map::<Seq<char>, ConfigValueView>::empty());
        assert(settings_map(seq![first]) == settings_map(seq![first].drop_last()).insert(first.0, first.1));
        assert(seq![first].drop_last() =~= Seq::<(Seq<char>, ConfigValueView)>::empty());
        assert(Map::<Seq<char>, ConfigValueView>::empty().insert(first.0, first.1).union_prefer_right(
            Map::empty(),
        ) =~= Map::<Seq<char>, ConfigValueView>::empty().insert(first.0, first.1));
    } else {
        lemma_settings_map_cons(first, rest.drop_last());
        assert((seq![first] + rest).drop_last() =~= seq![first] + rest.drop_last());
        assert((seq![first] + rest).last() == rest.last());
        assert(settings_map(seq![first] + rest) == settings_map((seq![first] + rest).drop_last()).insert(
            rest.last().0,
            rest.last().1,
        ));
        assert(settings_map(rest) == settings_map(rest.drop_last()).insert(rest.last().0, rest.last().1));
        assert(Map::<Seq<char>, ConfigValueView>::empty().insert(first.0, first.1).union_prefer_right(
            settings_map(rest.drop_last()),
        ).insert(rest.last().0, rest.last().1) =~= Map::<Seq<char>, ConfigValueView>::empty().insert(
            first.0,
            first.1,
        ).union_prefer_right(settings_map(rest)));
    }
}

} // verus!
