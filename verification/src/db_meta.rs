//! The workspace metadata index: the authoritative record of which
//! database ids exist and which view ids are linked to them, independent
//! of any in-memory cache state.

use vstd::prelude::*;

verus! {

/// One record of the index: a database id, its inline (primary) view and
/// the ordered list of views linked to it.
#[derive(Debug)]
pub struct DatabaseMeta {
    pub database_id: String,
    pub inline_view_id: String,
    pub linked_views: Vec<String>,
}

/// The abstract value of one record.
pub struct DatabaseMetaModel {
    pub database_id: Seq<char>,
    pub inline_view_id: Seq<char>,
    pub linked_views: Seq<Seq<char>>,
}

impl View for DatabaseMeta {
    type V = DatabaseMetaModel;

    open spec fn view(&self) -> DatabaseMetaModel {
        DatabaseMetaModel {
            database_id: self.database_id@,
            inline_view_id: self.inline_view_id@,
            linked_views: self.linked_views@.map_values(|v: String| v@),
        }
    }
}

impl Clone for DatabaseMeta {
    fn clone(&self) -> (r: Self)
        ensures
            r@ == self@,
    {
        let mut linked_views: Vec<String> = Vec::new();
        let mut i: usize = 0;
        while i < self.linked_views.len()
            invariant
                i <= self.linked_views.len(),
                linked_views@.len() == i as int,
                forall|j: int| 0 <= j < i ==> linked_views@[j]@ == self.linked_views@[j]@,
            decreases self.linked_views.len() - i,
        {
            linked_views.push(self.linked_views[i].clone());
            i = i + 1;
        }
        let r = DatabaseMeta {
            database_id: self.database_id.clone(),
            inline_view_id: self.inline_view_id.clone(),
            linked_views,
        };
        proof {
            assert(r@.linked_views =~= self@.linked_views);
        }
        r
    }
}

/// Whether the index holds a record for `database_id`.
pub open spec fn spec_has_db(ms: Seq<DatabaseMetaModel>, database_id: Seq<char>) -> bool {
    exists|i: int| 0 <= i < ms.len() && ms[i].database_id == database_id
}

/// The first record for `database_id`, if the index holds one.
pub open spec fn spec_db_meta(ms: Seq<DatabaseMetaModel>, database_id: Seq<char>) -> Option<
    DatabaseMetaModel,
>
    decreases ms.len(),
{
    if ms.len() == 0 {
        None
    } else if ms[0].database_id == database_id {
        Some(ms[0])
    } else {
        spec_db_meta(ms.drop_first(), database_id)
    }
}

/// The database id the view maps to: the first record that links the
/// view. A view maps to at most one database by construction.
pub open spec fn spec_db_for_view(ms: Seq<DatabaseMetaModel>, view_id: Seq<char>) -> Option<
    Seq<char>,
>
    decreases ms.len(),
{
    if ms.len() == 0 {
        None
    } else if ms[0].linked_views.contains(view_id) {
        Some(ms[0].database_id)
    } else {
        spec_db_for_view(ms.drop_first(), view_id)
    }
}

proof fn lemma_spec_db_meta_found(ms: Seq<DatabaseMetaModel>, database_id: Seq<char>, i: int)
    requires
        0 <= i < ms.len(),
        ms[i].database_id == database_id,
        forall|j: int| 0 <= j < i ==> ms[j].database_id != database_id,
    ensures
        spec_db_meta(ms, database_id) == Some(ms[i]),
    decreases i,
{
    if i > 0 {
        assert(forall|j: int| 0 <= j < i - 1 ==> ms.drop_first()[j] == ms[j + 1]);
        assert(ms.drop_first()[i - 1] == ms[i]);
        lemma_spec_db_meta_found(ms.drop_first(), database_id, i - 1);
    }
}

proof fn lemma_spec_db_for_view_found(ms: Seq<DatabaseMetaModel>, view_id: Seq<char>, i: int)
    requires
        0 <= i < ms.len(),
        ms[i].linked_views.contains(view_id),
        forall|j: int| 0 <= j < i ==> !ms[j].linked_views.contains(view_id),
    ensures
        spec_db_for_view(ms, view_id) == Some(ms[i].database_id),
    decreases i,
{
    if i > 0 {
        assert(forall|j: int| 0 <= j < i - 1 ==> ms.drop_first()[j] == ms[j + 1]);
        assert(ms.drop_first()[i - 1] == ms[i]);
        lemma_spec_db_for_view_found(ms.drop_first(), view_id, i - 1);
    }
}

proof fn lemma_spec_db_for_view_absent(ms: Seq<DatabaseMetaModel>, view_id: Seq<char>)
    requires
        forall|j: int| 0 <= j < ms.len() ==> !ms[j].linked_views.contains(view_id),
    ensures
        spec_db_for_view(ms, view_id) is None,
    decreases ms.len(),
{
    if ms.len() > 0 {
        assert(forall|j: int|
            0 <= j < ms.drop_first().len() ==> ms.drop_first()[j] == ms[j + 1]);
        lemma_spec_db_for_view_absent(ms.drop_first(), view_id);
    }
}

/// The position of the first record for `database_id`, or a negative
/// value when the index holds none.
pub open spec fn spec_db_index(ms: Seq<DatabaseMetaModel>, database_id: Seq<char>) -> int
    decreases ms.len(),
{
    if ms.len() == 0 {
        -1
    } else if ms[0].database_id == database_id {
        0
    } else if spec_db_index(ms.drop_first(), database_id) < 0 {
        -1
    } else {
        spec_db_index(ms.drop_first(), database_id) + 1
    }
}

proof fn lemma_spec_db_index_found(ms: Seq<DatabaseMetaModel>, database_id: Seq<char>, i: int)
    requires
        0 <= i < ms.len(),
        ms[i].database_id == database_id,
        forall|j: int| 0 <= j < i ==> ms[j].database_id != database_id,
    ensures
        spec_db_index(ms, database_id) == i,
    decreases i,
{
    if i > 0 {
        assert(forall|j: int| 0 <= j < ms.drop_first().len() ==> ms.drop_first()[j] == ms[j + 1]);
        lemma_spec_db_index_found(ms.drop_first(), database_id, i - 1);
    }
}

/// Whether one of the strings reads as `needle`.
fn contains_str(items: &Vec<String>, needle: &str) -> (r: bool)
    ensures
        r == items@.map_values(|v: String| v@).contains(needle@),
{
    let mut k: usize = 0;
    while k < items.len()
        invariant
            k <= items@.len(),
            forall|l: int| 0 <= l < k ==> items@[l]@ != needle@,
        decreases items@.len() - k,
    {
        if crate::text::str_eq(items[k].as_str(), needle) {
            proof {
                assert(items@.map_values(|v: String| v@)[k as int] == needle@);
            }
            return true;
        }
        k = k + 1;
    }
    proof {
        let mapped = items@.map_values(|v: String| v@);
        if mapped.contains(needle@) {
            let l = choose|l: int| 0 <= l < mapped.len() && mapped[l] == needle@;
            assert(items@[l]@ == needle@);
        }
    }
    false
}

/// The metadata index itself: an ordered list of records with distinct
/// database ids.
pub struct DatabaseMetaList {
    metas: Vec<DatabaseMeta>,
}

impl View for DatabaseMetaList {
    type V = Seq<DatabaseMetaModel>;

    closed spec fn view(&self) -> Seq<DatabaseMetaModel> {
        self.metas@.map_values(|m: DatabaseMeta| m@)
    }
}

impl DatabaseMetaList {
    /// No two records name the same database.
    pub open spec fn wf(self) -> bool {
        forall|i: int, j: int|
            0 <= i < j < self@.len() ==> self@[i].database_id != self@[j].database_id
    }

    /// An empty index.
    pub fn new() -> (r: Self)
        ensures
            r.wf(),
            r@ == Seq::<DatabaseMetaModel>::empty(),
    {
        let r = DatabaseMetaList { metas: Vec::new() };
        proof {
            assert(r@ =~= Seq::<DatabaseMetaModel>::empty());
        }
        r
    }

    fn find_index(&self, database_id: &str) -> (r: Option<usize>)
        ensures
            match r {
                Some(i) => i < self@.len() && self@[i as int].database_id == database_id@
                    && spec_db_index(self@, database_id@) == i as int && spec_has_db(
                    self@,
                    database_id@,
                ) && (forall|j: int| 0 <= j < i ==> self@[j].database_id != database_id@),
                None => !spec_has_db(self@, database_id@),
            },
    {
        let mut i: usize = 0;
        while i < self.metas.len()
            invariant
                i <= self.metas@.len(),
                self@.len() == self.metas@.len(),
                forall|j: int| 0 <= j < i ==> self@[j].database_id != database_id@,
            decreases self.metas@.len() - i,
        {
            if crate::text::str_eq(self.metas[i].database_id.as_str(), database_id) {
                proof {
                    assert(self@[i as int].database_id == database_id@);
                    lemma_spec_db_index_found(self@, database_id@, i as int);
                }
                return Some(i);
            }
            i = i + 1;
        }
        proof {
            if spec_has_db(self@, database_id@) {
                let j = choose|j: int|
                    0 <= j < self@.len() && self@[j].database_id == database_id@;
                assert(self@[j].database_id != database_id@);
            }
        }
        None
    }

    /// Whether the index holds a record for the database. The index is
    /// the authoritative existence signal.
    pub fn contains(&self, database_id: &str) -> (r: bool)
        ensures
            r == spec_has_db(self@, database_id@),
    {
        self.find_index(database_id).is_some()
    }

    /// The first record for the database, copied out.
    pub fn get_database_meta(&self, database_id: &str) -> (r: Option<DatabaseMeta>)
        ensures
            match r {
                Some(m) => spec_db_meta(self@, database_id@) == Some(m@),
                None => !spec_has_db(self@, database_id@),
            },
    {
        match self.find_index(database_id) {
            Some(i) => {
                proof {
                    lemma_spec_db_meta_found(self@, database_id@, i as int);
                }
                Some(self.metas[i].clone())
            },
            None => {
                proof {
                    if spec_has_db(self@, database_id@) {
                        let i = choose|i: int|
                            0 <= i < self@.len() && self@[i].database_id == database_id@;
                    }
                }
                None
            },
        }
    }

    /// The first record that links the given view, copied out.
    pub fn get_database_meta_with_view_id(&self, view_id: &str) -> (r: Option<DatabaseMeta>)
        ensures
            match r {
                Some(m) => spec_db_for_view(self@, view_id@) == Some(m@.database_id),
                None => spec_db_for_view(self@, view_id@) is None,
            },
    {
        let mut i: usize = 0;
        while i < self.metas.len()
            invariant
                i <= self.metas@.len(),
                self@.len() == self.metas@.len(),
                forall|j: int| 0 <= j < i ==> !self@[j].linked_views.contains(view_id@),
            decreases self.metas@.len() - i,
        {
            if contains_str(&self.metas[i].linked_views, view_id) {
                proof {
                    assert(self@[i as int].linked_views.contains(view_id@));
                    lemma_spec_db_for_view_found(self@, view_id@, i as int);
                }
                return Some(self.metas[i].clone());
            }
            proof {
                assert(!self@[i as int].linked_views.contains(view_id@));
            }
            i = i + 1;
        }
        proof {
            lemma_spec_db_for_view_absent(self@, view_id@);
        }
        None
    }

    /// Registers a database with its linked views; the first view is the
    /// inline view. A record already present for the id is replaced.
    pub fn add_database(&mut self, database_id: &str, view_ids: Vec<String>)
        requires
            old(self).wf(),
        ensures
            final(self).wf(),
            ({
                let m = DatabaseMetaModel {
                    database_id: database_id@,
                    inline_view_id: if view_ids@.len() > 0 {
                        view_ids@[0]@
                    } else {
                        Seq::<char>::empty()
                    },
                    linked_views: view_ids@.map_values(|v: String| v@),
                };
                if spec_has_db(old(self)@, database_id@) {
                    final(self)@ == old(self)@.update(spec_db_index(old(self)@, database_id@), m)
                } else {
                    final(self)@ == old(self)@.push(m)
                }
            }),
            spec_has_db(final(self)@, database_id@),
            forall|id: Seq<char>|
                #[trigger] spec_has_db(old(self)@, id) ==> spec_has_db(final(self)@, id),
    {
        let inline_view_id: String = if view_ids.len() > 0 {
            view_ids[0].clone()
        } else {
            String::new()
        };
        let meta = DatabaseMeta {
            database_id: database_id.to_owned(),
            inline_view_id,
            linked_views: view_ids,
        };
        let ghost mg = meta@;
        proof {
            assert(mg.linked_views =~= view_ids@.map_values(|v: String| v@));
        }
        match self.find_index(database_id) {
            Some(i) => {
                self.metas.set(i, meta);
                proof {
                    assert(self@ =~= old(self)@.update(i as int, mg));
                    assert(self@[i as int].database_id == database_id@);
                    assert forall|id: Seq<char>| #[trigger]
                        spec_has_db(old(self)@, id) implies spec_has_db(self@, id) by {
                        let j = choose|j: int|
                            0 <= j < old(self)@.len() && old(self)@[j].database_id == id;
                        if j == i as int {
                            assert(self@[j].database_id == database_id@);
                            assert(old(self)@[j].database_id == database_id@);
                        } else {
                            assert(self@[j].database_id == id);
                        }
                    }
                }
            },
            None => {
                self.metas.push(meta);
                proof {
                    assert(self@ =~= old(self)@.push(mg));
                    assert(self@[self@.len() - 1].database_id == database_id@);
                    assert forall|id: Seq<char>| #[trigger]
                        spec_has_db(old(self)@, id) implies spec_has_db(self@, id) by {
                        let j = choose|j: int|
                            0 <= j < old(self)@.len() && old(self)@[j].database_id == id;
                        assert(self@[j].database_id == id);
                    }
                }
            },
        }
    }

    /// Adds a view to the database's record, unless it is already linked;
    /// linking is idempotent. Nothing happens for an unknown database.
    pub fn link_view(&mut self, database_id: &str, view_id: &str)
        requires
            old(self).wf(),
        ensures
            final(self).wf(),
            !spec_has_db(old(self)@, database_id@) ==> final(self)@ == old(self)@,
            forall|id: Seq<char>|
                #[trigger] spec_has_db(old(self)@, id) ==> spec_has_db(final(self)@, id),
            spec_has_db(old(self)@, database_id@) ==> ({
                let i = spec_db_index(old(self)@, database_id@);
                final(self)@ == (if old(self)@[i].linked_views.contains(view_id@) {
                    old(self)@
                } else {
                    old(self)@.update(
                        i,
                        DatabaseMetaModel {
                            database_id: old(self)@[i].database_id,
                            inline_view_id: old(self)@[i].inline_view_id,
                            linked_views: old(self)@[i].linked_views.push(view_id@),
                        },
                    )
                })
            }),
    {
        match self.find_index(database_id) {
            None => {
            },
            Some(i) => {
                let ghost i0 = i as int;
                let linked = contains_str(&self.metas[i].linked_views, view_id);
                proof {
                    assert(linked == self@[i0].linked_views.contains(view_id@));
                }
                if !linked {
                    let mut meta = self.metas[i].clone();
                    meta.linked_views.push(view_id.to_owned());
                    let ghost mg = meta@;
                    self.metas.set(i, meta);
                    proof {
                        assert(self@ =~= old(self)@.update(i0, mg));
                        assert forall|id: Seq<char>| #[trigger]
                            spec_has_db(old(self)@, id) implies spec_has_db(self@, id) by {
                            let j = choose|j: int|
                                0 <= j < old(self)@.len() && old(self)@[j].database_id == id;
                            assert(self@[j].database_id == id);
                        }
                        assert(mg.linked_views =~= old(self)@[i0].linked_views.push(view_id@));
                        assert(mg =~= DatabaseMetaModel {
                            database_id: old(self)@[i0].database_id,
                            inline_view_id: old(self)@[i0].inline_view_id,
                            linked_views: old(self)@[i0].linked_views.push(view_id@),
                        });
                    }
                }
            },
        }
    }

    /// Removes the database's record from the index. Records of other
    /// databases are untouched.
    pub fn delete_database(&mut self, database_id: &str)
        requires
            old(self).wf(),
        ensures
            final(self).wf(),
            !spec_has_db(final(self)@, database_id@),
            !spec_has_db(old(self)@, database_id@) ==> final(self)@ == old(self)@,
            spec_has_db(old(self)@, database_id@) ==> final(self)@ == old(self)@.remove(
                spec_db_index(old(self)@, database_id@),
            ),
            forall|id: Seq<char>|
                id != database_id@ && #[trigger] spec_has_db(old(self)@, id) ==> spec_has_db(
                    final(self)@,
                    id,
                ),
    {
        match self.find_index(database_id) {
            None => {
                proof {
                    if spec_has_db(self@, database_id@) {
                        let i = choose|i: int|
                            0 <= i < self@.len() && self@[i].database_id == database_id@;
                    }
                }
            },
            Some(i) => {
                let ghost i0 = i as int;
                let _ = self.metas.remove(i);
                proof {
                    assert(self@ =~= old(self)@.remove(i0));
                    old(self)@.remove_ensures(i0);
                    assert forall|id: Seq<char>|
                        id != database_id@ && #[trigger] spec_has_db(old(self)@, id) implies spec_has_db(self@, id) by {
                        let j = choose|j: int|
                            0 <= j < old(self)@.len() && old(self)@[j].database_id == id;
                        assert(old(self)@[i0].database_id == database_id@);
                        assert(j != i0);
                        if j < i0 {
                            assert(self@[j].database_id == id);
                        } else {
                            assert(self@[j - 1] == old(self)@[j]);
                            assert(self@[j - 1].database_id == id);
                        }
                    }
                    assert forall|j: int| 0 <= j < self@.len() implies self@[j].database_id
                        != database_id@ by {
                        if j < i0 {
                            assert(self@[j] == old(self)@[j]);
                        } else {
                            assert(self@[j] == old(self)@[j + 1]);
                        }
                    }
                    if spec_has_db(self@, database_id@) {
                        let j = choose|j: int|
                            0 <= j < self@.len() && self@[j].database_id == database_id@;
                        assert(false);
                    }
                }
            },
        }
    }

    /// All records, copied out in index order.
    pub fn get_all_database_meta(&self) -> (r: Vec<DatabaseMeta>)
        ensures
            r@.map_values(|m: DatabaseMeta| m@) == self@,
    {
        let mut out: Vec<DatabaseMeta> = Vec::new();
        let mut i: usize = 0;
        while i < self.metas.len()
            invariant
                i <= self.metas@.len(),
                self@.len() == self.metas@.len(),
                out@.len() == i as int,
                forall|j: int| 0 <= j < i ==> out@[j]@ == self@[j],
            decreases self.metas@.len() - i,
        {
            out.push(self.metas[i].clone());
            i = i + 1;
        }
        proof {
            assert(out@.map_values(|m: DatabaseMeta| m@) =~= self@);
        }
        out
    }
}

} // verus!
