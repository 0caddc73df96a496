//! Registry of table routing metadata from config.
use vstd::prelude::*;

use crate::config::{TableRoutingConfig, TableView};
use crate::text::{chars_of, copy_string, eq_ignore_case, lower_seq, lower_vec};

verus! {

/// The routing metadata of each configured table, by lower-cased table name; a later
/// table of the same name replaces an earlier one.
pub open spec fn registry_map(vs: Seq<TableView>) -> Map<Seq<char>, TableView>
    decreases vs.len(),
{
    if vs.len() == 0 {
        Map::empty()
    } else {
        registry_map(vs.drop_last()).insert(lower_seq(vs.last().name), vs.last())
    }
}

pub open spec fn views_of(ts: Seq<TableRoutingConfig>) -> Seq<TableView> {
    Seq::new(ts.len(), |i: int| ts[i]@)
}

/// Last position of a table whose lower-cased name is `k`.
pub open spec fn last_match(vs: Seq<TableView>, k: Seq<char>) -> Option<int>
    decreases vs.len(),
{
    if vs.len() == 0 {
        None
    } else if lower_seq(vs.last().name) == k {
        Some(vs.len() - 1)
    } else {
        last_match(vs.drop_last(), k)
    }
}

pub proof fn lemma_registry_lookup(vs: Seq<TableView>, k: Seq<char>)
    ensures
        registry_map(vs).contains_key(k) == (last_match(vs, k) is Some),
        last_match(vs, k) matches Some(i) ==> 0 <= i < vs.len() && registry_map(vs)[k] == vs[i]
            && lower_seq(vs[i].name) == k,
        last_match(vs, k) matches Some(i) ==> forall|j: int|
            i < j < vs.len() ==> lower_seq(#[trigger] vs[j].name) != k,
        last_match(vs, k) is None ==> forall|j: int|
            0 <= j < vs.len() ==> lower_seq(#[trigger] vs[j].name) != k,
    decreases vs.len(),
{
    if vs.len() > 0 {
        lemma_registry_lookup(vs.drop_last(), k);
        if lower_seq(vs.last().name) != k {
            assert forall|j: int| 0 <= j < vs.len() implies lower_seq(#[trigger] vs[j].name) != k
                || (last_match(vs, k) matches Some(i) && j <= i) by {
                if j < vs.len() - 1 {
                    assert(vs.drop_last()[j] == vs[j]);
                }
            }
        }
    }
}

/// Registry of table routing metadata from config.
#[derive(Debug, Clone)]
pub struct TableRegistry {
    tables: Vec<TableRoutingConfig>,
}

impl View for TableRegistry {
    type V = Map<Seq<char>, TableView>;

    closed spec fn view(&self) -> Map<Seq<char>, TableView> {
        registry_map(views_of(self.tables@))
    }
}

impl Default for TableRegistry {
    fn default() -> (r: Self)
        ensures
            r@ == Map::<Seq<char>, TableView>::empty(),
    {
        TableRegistry { tables: Vec::new() }
    }
}

impl TableRegistry {
    /// A copy of the registry.
    pub fn duplicate(&self) -> (r: Self)
        ensures
            r@ == self@,
    {
        TableRegistry::from_config(self.tables.as_slice(), "")
    }

    /// Indexes `tables` by lower-cased name (the default shard key is not stored).
    pub fn from_config(tables: &[TableRoutingConfig], default_shard_key: &str) -> (r: Self)
        ensures
            r@ == registry_map(views_of(tables@)),
    {
        let mut v: Vec<TableRoutingConfig> = Vec::new();
        let mut i: usize = 0;
        while i < tables.len()
            invariant
                0 <= i <= tables.len(),
                v@.len() == i,
                views_of(v@) == views_of(tables@).take(i as int),
            decreases tables.len() - i,
        {
            let t = tables[i].copied();
            let ghost old_v = v@;
            v.push(t);
            i = i + 1;
            assert forall|j: int| 0 <= j < i implies #[trigger] views_of(v@)[j] == views_of(
                tables@,
            ).take(i as int)[j] by {
                if j < i - 1 {
                    assert(views_of(old_v)[j] == old_v[j]@);
                    assert(v@[j] == old_v[j]);
                }
            }
            assert(views_of(v@) =~= views_of(tables@).take(i as int));
        }
        assert(views_of(tables@).take(i as int) =~= views_of(tables@));
        TableRegistry { tables: v }
    }

    fn position(&self, name: &str) -> (r: Option<usize>)
        ensures
            r matches Some(i) ==> last_match(views_of(self.tables@), lower_seq(name@)) == Some(
                i as int,
            ),
            r is None ==> last_match(views_of(self.tables@), lower_seq(name@)) is None,
    {
        let key = lower_vec(&chars_of(name));
        let mut i = self.tables.len();
        let ghost vs = views_of(self.tables@);
        assert(vs.take(i as int) =~= vs);
        while i > 0
            invariant
                i <= self.tables.len(),
                vs == views_of(self.tables@),
                key@ == lower_seq(name@),
                last_match(vs, key@) == last_match(vs.take(i as int), key@),
            decreases i,
        {
            assert(vs.take(i as int).drop_last() =~= vs.take(i - 1));
            let n = lower_vec(&chars_of(self.tables[i - 1].name.as_str()));
            if crate::text::str_eq_vec(&n, &key) {
                return Some(i - 1);
            }
            i = i - 1;
        }
        None
    }

    /// The table named `name`, compared without ASCII case.
    pub fn get(&self, name: &str) -> (r: Option<&TableRoutingConfig>)
        ensures
            r is Some == self@.contains_key(lower_seq(name@)),
            r matches Some(t) ==> t@ == self@[lower_seq(name@)],
    {
        proof {
            lemma_registry_lookup(views_of(self.tables@), lower_seq(name@));
        }
        match self.position(name) {
            Some(i) => {
                assert(last_match(views_of(self.tables@), lower_seq(name@)) == Some(i as int));
                assert(views_of(self.tables@)[i as int] == self.tables@[i as int]@);
                Some(&self.tables[i])
            },
            None => None,
        }
    }

    /// Whether the table is sharded; unknown tables count as sharded.
    pub fn is_sharded(&self, name: &str) -> (r: bool)
        ensures
            r == (if self@.contains_key(lower_seq(name@)) {
                self@[lower_seq(name@)].sharded
            } else {
                true
            }),
    {
        match self.get(name) {
            Some(t) => t.sharded,
            None => true,
        }
    }

    /// The table's own shard key, or `default`.
    pub fn shard_key_for(&self, name: &str, default: &str) -> (r: String)
        ensures
            r@ == (match self@.get(lower_seq(name@)) {
                Some(t) => match t.shard_key {
                    Some(k) => k,
                    None => default@,
                },
                None => default@,
            }),
    {
        match self.get(name) {
            Some(t) => match &t.shard_key {
                Some(k) => copy_string(k),
                None => String::from_str(default),
            },
            None => String::from_str(default),
        }
    }
}

/// Table lookup ignores ASCII case: names equal up to case find the same table.
pub proof fn law_lookup_ignores_case(registry: Map<Seq<char>, TableView>, a: Seq<char>, b: Seq<char>)
    requires
        crate::text::eq_ignore_case(a, b),
    ensures
        registry.get(lower_seq(a)) == registry.get(lower_seq(b)),
{
}

} // verus!
