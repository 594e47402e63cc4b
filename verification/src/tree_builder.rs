//! Recursive tree aggregation from a caller-supplied data source. The
//! builder turns a root identifier into a fully aggregated [`Tree`],
//! emitting progress events as it discovers and finishes nodes. A failed
//! lookup of a non-root node is recovered as a zero-valued leaf and counted;
//! a failed lookup of the root aborts the whole build.

use vstd::prelude::*;
use crate::error_report::ErrorReport;
use crate::progress_report::effectual_reporter::EffectualReporter;
use crate::progress_report::{progress_le, Event, ProgressObserver};
use crate::size::{sat_add_u64, Size};
use crate::tree::{
    descending, forest_descending, forest_view, lemma_forest_view_index, lemma_forest_view_push,
    lemma_sat_data_dominates, lemma_sat_data_push, sat_data, Tree, TreeV,
};

verus! {

/// The mathematical content of an [`Info`].
#[verifier::ext_equal]
pub struct InfoModel {
    pub own_size: u64,
    pub child_names: Seq<Seq<char>>,
}

/// Transient per-node fetch result: the node's own size and the ordered
/// names of its children. Exists only during construction.
#[derive(Clone, Debug)]
pub struct Info<D: Size> {
    /// The node's own contribution, excluding its children.
    pub own_size: D,
    /// The names of the node's children, in source order.
    pub child_names: Vec<String>,
}

impl<D: Size> View for Info<D> {
    type V = InfoModel;

    open spec fn view(&self) -> InfoModel {
        InfoModel {
            own_size: self.own_size.val(),
            child_names: Seq::new(self.child_names@.len(), |i: int| self.child_names@[i]@),
        }
    }
}

/// A caller-supplied source of per-node information, addressed by integer
/// node handles. `info_model` and `join_model` name what the two lookups
/// return, so the builder's result can be pinned to the source's content.
pub trait DataSource<D: Size>: Sized {
    /// An exclusive upper bound on the handles the source knows.
    spec fn node_limit(&self) -> int;

    /// What the source knows about a handle: `None` means the lookup fails.
    spec fn info_model(&self, id: u64) -> Option<InfoModel>;

    /// The handle that a parent handle and a child name resolve to.
    spec fn join_model(&self, id: u64, name: Seq<char>) -> u64;

    /// Fetch a node's information. Succeeds exactly on the handles the
    /// source knows.
    fn get_info(&self, id: u64) -> (r: Result<Info<D>, ErrorReport>)
        ensures
            r is Ok <==> self.info_model(id) is Some,
            r is Ok ==> r->Ok_0@ == self.info_model(id)->Some_0,
    ;

    /// Resolve a parent handle and a child name to the child's handle.
    fn join(&self, id: u64, name: &String) -> (r: u64)
        ensures
            r == self.join_model(id, name@),
    ;
}

/// The precondition construction relies on: known handles lie below the
/// limit, joining a listed child name strictly increases the handle (so the
/// input is acyclic and recursion terminates), and distinct (parent, name)
/// pairs never resolve to the same child handle.
pub open spec fn source_wf<D: Size, S: DataSource<D>>(s: &S) -> bool {
    &&& forall|id: u64| s.info_model(id) is Some ==> (id as int) < s.node_limit()
    &&& forall|id: u64, name: Seq<char>|
        (s.info_model(id) is Some && s.info_model(id)->Some_0.child_names.contains(name))
            ==> #[trigger] s.join_model(id, name) > id
    &&& forall|a: u64, na: Seq<char>, b: u64, nb: Seq<char>|
        {
            (s.info_model(a) is Some && s.info_model(a)->Some_0.child_names.contains(na)
                && s.info_model(b) is Some && s.info_model(b)->Some_0.child_names.contains(nb) && !(
            a == b && na == nb)) ==> #[trigger] s.join_model(a, na) != #[trigger] s.join_model(
                b,
                nb,
            )
        }
}

/// How many handles above `id` the source can still hand out; the builder's
/// recursion strictly shrinks it.
pub open spec fn remaining<D: Size, S: DataSource<D>>(s: &S, id: u64) -> int {
    if (id as int) < s.node_limit() {
        s.node_limit() - id
    } else {
        0
    }
}

/// The built tree is exactly what the source describes below `id`: its data
/// is the saturating sum of the node's own size and the children's data,
/// its children carry the listed names in order and each represents the
/// joined handle; a handle the source does not know yields a zero leaf.
pub open spec fn represents<D: Size, S: DataSource<D>>(t: TreeV, s: &S, id: u64) -> bool
    decreases t,
{
    match s.info_model(id) {
        Option::Some(m) => {
            &&& t.data == sat_data(m.own_size, t.children)
            &&& t.children.len() == m.child_names.len()
            &&& forest_represents(t.children, s, id, m.child_names)
        },
        Option::None => t.data == 0 && t.children.len() == 0,
    }
}

/// Each subtree of the forest carries the matching listed name and
/// represents the handle that name joins to.
pub open spec fn forest_represents<D: Size, S: DataSource<D>>(
    cs: Seq<TreeV>,
    s: &S,
    parent: u64,
    names: Seq<Seq<char>>,
) -> bool
    decreases cs,
{
    cs.len() == 0 || (cs.len() == names.len() && cs[0].name == names[0] && represents(
        cs[0],
        s,
        s.join_model(parent, names[0]),
    ) && forest_represents(cs.drop_first(), s, parent, names.drop_first()))
}

/// Appending one subtree to a represented forest.
proof fn lemma_forest_represents_push<D: Size, S: DataSource<D>>(
    cs: Seq<TreeV>,
    s: &S,
    parent: u64,
    names: Seq<Seq<char>>,
    c: TreeV,
    nm: Seq<char>,
)
    requires
        cs.len() == names.len(),
        forest_represents(cs, s, parent, names),
        c.name == nm,
        represents(c, s, s.join_model(parent, nm)),
    ensures
        forest_represents(cs.push(c), s, parent, names.push(nm)),
    decreases cs.len(),
{
    if cs.len() == 0 {
        assert(cs.push(c).drop_first() =~= Seq::<TreeV>::empty());
        assert(names.push(nm).drop_first() =~= Seq::<Seq<char>>::empty());
        assert(forest_represents(cs.push(c).drop_first(), s, parent, names.push(nm).drop_first()));
    } else {
        assert(cs.push(c).drop_first() =~= cs.drop_first().push(c));
        assert(names.push(nm).drop_first() =~= names.drop_first().push(nm));
        lemma_forest_represents_push(cs.drop_first(), s, parent, names.drop_first(), c, nm);
    }
}

/// Aggregation correctness: as long as nothing saturates, every represented
/// node's `data` is exactly its own size plus the sum of its children's
/// `data`; in particular a leaf's `data` is exactly its own size.
pub proof fn lemma_aggregation_exact<D: Size, S: DataSource<D>>(t: TreeV, s: &S, id: u64)
    requires
        represents(t, s, id),
        s.info_model(id) is Some,
        s.info_model(id)->Some_0.own_size + crate::tree::children_total(t.children) <= u64::MAX,
    ensures
        t.data == s.info_model(id)->Some_0.own_size + crate::tree::children_total(t.children),
{
    crate::tree::lemma_sat_data_exact(s.info_model(id)->Some_0.own_size, t.children);
}

/// Determinism: two trees that represent the same handle of the same source
/// under the same name are structurally identical, however their
/// construction was scheduled.
pub proof fn lemma_build_deterministic<D: Size, S: DataSource<D>>(
    t1: TreeV,
    t2: TreeV,
    s: &S,
    id: u64,
)
    requires
        represents(t1, s, id),
        represents(t2, s, id),
        t1.name == t2.name,
    ensures
        t1 == t2,
    decreases t1,
{
    match s.info_model(id) {
        Option::Some(m) => {
            lemma_forest_deterministic(t1.children, t2.children, s, id, m.child_names);
            assert(t1 =~~= t2);
        },
        Option::None => {
            assert(t1.children =~= t2.children);
            assert(t1 =~~= t2);
        },
    }
}

/// Forests that represent the same listed names of the same parent are
/// equal.
proof fn lemma_forest_deterministic<D: Size, S: DataSource<D>>(
    cs1: Seq<TreeV>,
    cs2: Seq<TreeV>,
    s: &S,
    parent: u64,
    names: Seq<Seq<char>>,
)
    requires
        cs1.len() == names.len(),
        cs2.len() == names.len(),
        forest_represents(cs1, s, parent, names),
        forest_represents(cs2, s, parent, names),
    ensures
        cs1 == cs2,
    decreases cs1,
{
    if cs1.len() == 0 {
        assert(cs1 =~= cs2);
    } else {
        lemma_build_deterministic(cs1[0], cs2[0], s, s.join_model(parent, names[0]));
        lemma_forest_deterministic(
            cs1.drop_first(),
            cs2.drop_first(),
            s,
            parent,
            names.drop_first(),
        );
        assert forall|i: int| 0 <= i < cs1.len() implies cs1[i] == cs2[i] by {
            if i > 0 {
                assert(cs1.drop_first()[i - 1] == cs1[i]);
                assert(cs2.drop_first()[i - 1] == cs2[i]);
            }
        }
        assert(cs1 =~= cs2);
    }
}

/// A represented tree is descending: every node's `data` dominates each
/// child's, which the proportional bar column relies on.
pub proof fn lemma_represents_descending<D: Size, S: DataSource<D>>(t: TreeV, s: &S, id: u64)
    requires
        represents(t, s, id),
    ensures
        descending(t),
    decreases t,
{
    match s.info_model(id) {
        Option::Some(m) => {
            lemma_sat_data_dominates(m.own_size, t.children);
            lemma_forest_descending(t.children, s, id, m.child_names, t.data);
        },
        Option::None => {},
    }
}

/// A represented forest whose members' data a bound dominates is descending
/// under that bound.
proof fn lemma_forest_descending<D: Size, S: DataSource<D>>(
    cs: Seq<TreeV>,
    s: &S,
    parent: u64,
    names: Seq<Seq<char>>,
    bound: u64,
)
    requires
        forest_represents(cs, s, parent, names),
        forall|i: int| 0 <= i < cs.len() ==> cs[i].data <= bound,
    ensures
        forest_descending(cs, bound),
    decreases cs,
{
    if cs.len() > 0 {
        lemma_represents_descending(cs[0], s, s.join_model(parent, names[0]));
        assert forall|i: int| 0 <= i < cs.drop_first().len() implies cs.drop_first()[i].data
            <= bound by {
            assert(cs.drop_first()[i] == cs[i + 1]);
        }
        lemma_forest_descending(cs.drop_first(), s, parent, names.drop_first(), bound);
    }
}

/// Turns a root handle plus a data source into a fully aggregated tree,
/// reporting progress as it goes.
pub struct TreeBuilder<'a, S> {
    /// The handle of the root node.
    pub id: u64,
    /// The display name of the root node.
    pub name: String,
    /// Supplies per-node information and resolves child names to handles.
    pub source: &'a S,
}

impl<'a, S> TreeBuilder<'a, S> {
    /// Build the aggregated tree. Succeeds exactly when the source knows the
    /// root handle; the result then represents the source's content below
    /// the root, carries the given root name, and is descending. A failed
    /// lookup of a non-root node is recovered as a zero leaf and reported;
    /// the progress record only ever grows.
    pub fn build<D: Size, O: ProgressObserver<D>>(
        self,
        reporter: &mut EffectualReporter<D, O>,
    ) -> (r: Result<Tree<D>, ErrorReport>) where S: DataSource<D>
        requires
            source_wf(self.source),
        ensures
            r is Ok <==> self.source.info_model(self.id) is Some,
            r is Ok ==> represents(r->Ok_0@, self.source, self.id),
            r is Ok ==> r->Ok_0@.name == self.name@,
            r is Ok ==> descending(r->Ok_0@),
            progress_le(old(reporter).progress@, final(reporter).progress@),
    {
        match self.source.get_info(self.id) {
            Ok(info) => {
                let t = grow(self.source, reporter, self.id, self.name, info);
                proof {
                    lemma_represents_descending(t@, self.source, self.id);
                }
                Ok(t)
            },
            Err(error) => Err(error),
        }
    }
}

/// Aggregate the node `id`, whose fetched information is already in hand,
/// and its whole subtree. Emits, per node: `BeginScanning`, the children's
/// events, `ReceiveData` with the node's own size, `FinishScanning`; a
/// failed child lookup additionally emits `EncounterError` first and yields
/// a zero leaf.
fn grow<D: Size, S: DataSource<D>, O: ProgressObserver<D>>(
    source: &S,
    reporter: &mut EffectualReporter<D, O>,
    id: u64,
    name: String,
    info: Info<D>,
) -> (t: Tree<D>)
    requires
        source_wf(source),
        source.info_model(id) is Some,
        info@ == source.info_model(id)->Some_0,
    ensures
        t@.name == name@,
        represents(t@, source, id),
        progress_le(old(reporter).progress@, final(reporter).progress@),
    decreases remaining(source, id),
{
    let ghost m = source.info_model(id)->Some_0;
    reporter.report(Event::BeginScanning);
    let n = info.child_names.len();
    let mut children: Vec<Tree<D>> = Vec::new();
    let mut i: usize = 0;
    proof {
        lemma_forest_view_index(children@);
    }
    while i < n
        invariant
            source_wf(source),
            source.info_model(id) is Some,
            m == source.info_model(id)->Some_0,
            info@ == m,
            n == info.child_names@.len(),
            i <= n,
            children@.len() == i,
            forest_view(children@).len() == i,
            forest_represents(forest_view(children@), source, id, m.child_names.take(i as int)),
            progress_le(old(reporter).progress@, reporter.progress@),
        decreases n - i,
    {
        let child_name: String = info.child_names[i].clone();
        proof {
            assert(m.child_names[i as int] == child_name@);
            assert(m.child_names.contains(child_name@));
        }
        let child_id = source.join(id, &child_name);
        proof {
            assert(child_id > id);
            assert((id as int) < source.node_limit());
        }
        let child = match source.get_info(child_id) {
            Ok(child_info) => grow(source, reporter, child_id, child_name, child_info),
            Err(error) => {
                reporter.report(Event::EncounterError(error));
                reporter.report(Event::BeginScanning);
                reporter.report(Event::ReceiveData(D::zero()));
                reporter.report(Event::FinishScanning);
                let leaf = Tree { name: child_name, data: D::zero(), children: Vec::new() };
                proof {
                    assert(forest_view(leaf.children@) =~= Seq::<TreeV>::empty());
                    assert(represents(leaf@, source, child_id));
                }
                leaf
            },
        };
        proof {
            assert(represents(child@, source, child_id));
            lemma_forest_view_push(children@, child);
            lemma_forest_represents_push(
                forest_view(children@),
                source,
                id,
                m.child_names.take(i as int),
                child@,
                child@.name,
            );
            assert(m.child_names.take(i as int).push(child@.name) =~= m.child_names.take(
                i as int + 1,
            ));
        }
        children.push(child);
        i += 1;
    }
    let mut data = info.own_size;
    let mut j: usize = 0;
    proof {
        lemma_forest_view_index(children@);
        assert(forest_view(children@).take(0) =~= Seq::<TreeV>::empty());
    }
    while j < n
        invariant
            n == children@.len(),
            forest_view(children@).len() == n,
            j <= n,
            data.val() == sat_data(info@.own_size, forest_view(children@).take(j as int)),
            forall|k: int| 0 <= k < n ==> forest_view(children@)[k] == children@[k]@,
        decreases n - j,
    {
        proof {
            lemma_sat_data_push(
                info@.own_size,
                forest_view(children@).take(j as int),
                forest_view(children@)[j as int],
            );
            assert(forest_view(children@).take(j as int).push(forest_view(children@)[j as int])
                =~= forest_view(children@).take(j as int + 1));
        }
        data = data.add(children[j].data);
        j += 1;
    }
    reporter.report(Event::ReceiveData(info.own_size));
    reporter.report(Event::FinishScanning);
    let t = Tree { name, data, children };
    proof {
        assert(forest_view(t.children@).take(n as int) =~= forest_view(t.children@));
        assert(m.child_names.take(n as int) =~= m.child_names);
        assert(t@.children == forest_view(t.children@));
    }
    t
}

/// One child reference of an in-memory entry: the child's display name and
/// the handle it resolves to.
#[derive(Clone, Debug)]
pub struct MemoryChild {
    /// The child's display name.
    pub name: String,
    /// The handle the name resolves to.
    pub id: u64,
}

/// One in-memory node: its own size and its ordered child references.
#[derive(Clone, Debug)]
pub struct MemoryEntry<D: Size> {
    /// The node's own contribution.
    pub own_size: D,
    /// The node's children, in order.
    pub children: Vec<MemoryChild>,
}

/// An in-memory data source: entry `i` describes the node with handle `i`,
/// and `None` stands for a node whose lookup fails. It satisfies
/// [`source_wf`] when every child handle exceeds its parent's, sibling
/// names are distinct, and no two parents share a child handle.
#[derive(Clone, Debug)]
pub struct MemorySource<D: Size> {
    /// The entries, indexed by handle.
    pub entries: Vec<Option<MemoryEntry<D>>>,
}

/// The ordered names of an entry's children.
pub open spec fn entry_names<D: Size>(e: MemoryEntry<D>) -> Seq<Seq<char>> {
    Seq::new(e.children@.len(), |i: int| e.children@[i].name@)
}

/// The handle of the first child carrying `name`, if any.
pub open spec fn find_child(cs: Seq<MemoryChild>, name: Seq<char>) -> Option<u64>
    decreases cs.len(),
{
    if cs.len() == 0 {
        Option::None
    } else if cs[0].name@ == name {
        Option::Some(cs[0].id)
    } else {
        find_child(cs.drop_first(), name)
    }
}

impl<D: Size> DataSource<D> for MemorySource<D> {
    open spec fn node_limit(&self) -> int {
        self.entries@.len() as int
    }

    open spec fn info_model(&self, id: u64) -> Option<InfoModel> {
        if (id as int) < self.entries@.len() && self.entries@[id as int] is Some {
            Option::Some(
                InfoModel {
                    own_size: self.entries@[id as int]->Some_0.own_size.val(),
                    child_names: entry_names(self.entries@[id as int]->Some_0),
                },
            )
        } else {
            Option::None
        }
    }

    open spec fn join_model(&self, id: u64, name: Seq<char>) -> u64 {
        if (id as int) < self.entries@.len() && self.entries@[id as int] is Some {
            match find_child(self.entries@[id as int]->Some_0.children@, name) {
                Option::Some(child) => child,
                Option::None => u64::MAX,
            }
        } else {
            u64::MAX
        }
    }

    fn get_info(&self, id: u64) -> (r: Result<Info<D>, ErrorReport>)
        ensures
            r is Ok <==> self.info_model(id) is Some,
            r is Ok ==> r->Ok_0@ == self.info_model(id)->Some_0,
    {
        if id < self.entries.len() as u64 {
            match &self.entries[id as usize] {
                Some(entry) => {
                    let count = entry.children.len();
                    let mut names: Vec<String> = Vec::new();
                    let mut i: usize = 0;
                    while i < count
                        invariant
                            count == entry.children@.len(),
                            i <= count,
                            names@.len() == i,
                            forall|k: int| 0 <= k < i ==> names@[k]@ == entry.children@[k].name@,
                        decreases count - i,
                    {
                        names.push(entry.children[i].name.clone());
                        i += 1;
                    }
                    let info = Info { own_size: entry.own_size, child_names: names };
                    proof {
                        assert(info@.child_names =~= entry_names(self.entries@[id as int]->Some_0));
                        assert(info@ =~~= self.info_model(id)->Some_0);
                    }
                    Ok(info)
                },
                None => Err(
                    ErrorReport::new(
                        "get_info".to_owned(),
                        crate::bytes_format::chars_to_string(
                            &crate::bytes_format::u64_to_digits(id),
                        ),
                    ),
                ),
            }
        } else {
            Err(
                ErrorReport::new(
                    "get_info".to_owned(),
                    crate::bytes_format::chars_to_string(&crate::bytes_format::u64_to_digits(id)),
                ),
            )
        }
    }

    fn join(&self, id: u64, name: &String) -> (r: u64)
        ensures
            r == self.join_model(id, name@),
    {
        if id < self.entries.len() as u64 {
            match &self.entries[id as usize] {
                Some(entry) => {
                    let count = entry.children.len();
                    let mut j: usize = 0;
                    proof {
                        assert(entry.children@.skip(0) =~= entry.children@);
                    }
                    while j < count
                        invariant
                            count == entry.children@.len(),
                            j <= count,
                            (id as int) < self.entries@.len(),
                            self.entries@[id as int] is Some,
                            entry.children@ == self.entries@[id as int]->Some_0.children@,
                            find_child(entry.children@, name@) == find_child(
                                entry.children@.skip(j as int),
                                name@,
                            ),
                        decreases count - j,
                    {
                        proof {
                            let ghost jj = j as int;
                            assert(entry.children@.skip(jj)[0] == entry.children@[jj]);
                        }
                        if entry.children[j].name.eq(name) {
                            return entry.children[j].id;
                        }
                        proof {
                            assert(entry.children@.skip(j as int).drop_first()
                                =~= entry.children@.skip(j as int + 1));
                        }
                        j += 1;
                    }
                    proof {
                        assert(entry.children@.skip(count as int) =~= Seq::<MemoryChild>::empty());
                    }
                    u64::MAX
                },
                None => u64::MAX,
            }
        } else {
            u64::MAX
        }
    }
}

} // verus!
