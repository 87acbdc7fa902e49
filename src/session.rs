use vstd::prelude::*;
use crate::cache::{CacheCounter, CatalogCache};
use crate::catalog::{catalog_wf, Catalog, CatalogNode, Category, CommandSpec, CoreError};
use crate::preview::{option_view, preview_of, preview_text};
use crate::execution::{
    lemma_submit_appends, CommandExecutionResult, CoordinatorModel, ExecutionCoordinator,
    ExecutionRequest,
};
use crate::search::{
    filter_children, filtered, lemma_filtered_empty_query, lemma_filtered_within, node_matches,
};
use crate::selection::{toggled, SelectionSet};
use crate::text::{join_strings, joined};

verus! {

/// One level of navigation: the node shown, and the cursor position that was active in
/// the level below when it was entered.
#[derive(Clone, Copy, Debug, PartialEq, Eq, Structural)]
pub struct Frame {
    pub node: usize,
    pub selected: usize,
}

/// One shown child of the current location.
pub struct ListEntry {
    pub id: usize,
    pub name: String,
    pub description: String,
    pub tags: String,
    pub has_children: bool,
    pub multi_select: bool,
    pub is_multi_selected: bool,
}

/// The navigation stack is non-empty, its bottom frame is the root, every frame names a
/// node of the arena, and each stored cursor points into its parent's children.
pub open spec fn frames_wf(nodes: Seq<CatalogNode>, frames: Seq<Frame>) -> bool {
    &&& frames.len() >= 1
    &&& frames[0].node == 0
    &&& forall|i: int| 0 <= i < frames.len() ==> #[trigger] frames[i].node < nodes.len()
    &&& forall|i: int|
        1 <= i < frames.len() ==> #[trigger] frames[i].selected < nodes[frames[i
            - 1].node as int].children@.len()
}

/// A node can be marked for a batch when it allows it.
pub open spec fn selectable(nodes: Seq<CatalogNode>, id: usize) -> bool {
    id < nodes.len() && nodes[id as int].multi_select
}

/// Every node of the batch has a command to run.
pub open spec fn batch_executable(nodes: Seq<CatalogNode>, batch: Seq<usize>) -> bool {
    forall|i: int| 0 <= i < batch.len() ==> #[trigger] nodes[batch[i] as int].command.is_executable()
}

/// The cursor after the shown list changed: reset to the first entry when it fell off
/// the end, and left alone when the list is empty.
pub open spec fn clamped(selected: usize, len: nat) -> usize {
    if selected >= len && len > 0 {
        0
    } else {
        selected
    }
}

/// The interactive layer's state: which category is open, the path taken inside it, the
/// search text, the shown entries, the batch selection, and the execution coordinator.
pub struct Session {
    cache: CatalogCache,
    validate: bool,
    category: usize,
    frames: Vec<Frame>,
    selected: usize,
    search: String,
    visible: Vec<usize>,
    selection: SelectionSet,
    coordinator: ExecutionCoordinator,
}

impl Session {
    pub closed spec fn snapshot(&self) -> Seq<Category> {
        match self.cache.slot() {
            Some(c) => c@,
            None => Seq::empty(),
        }
    }

    pub closed spec fn category_index(&self) -> int {
        self.category as int
    }

    pub open spec fn current(&self) -> Category {
        self.snapshot()[self.category_index()]
    }

    pub open spec fn nodes(&self) -> Seq<CatalogNode> {
        self.current().nodes@
    }

    pub closed spec fn frames(&self) -> Seq<Frame> {
        self.frames@
    }

    /// The node whose children are shown.
    pub open spec fn location(&self) -> usize {
        self.frames().last().node
    }

    pub open spec fn depth(&self) -> nat {
        self.frames().len()
    }

    pub closed spec fn cursor(&self) -> usize {
        self.selected
    }

    pub closed spec fn search_text(&self) -> Seq<char> {
        self.search@
    }

    /// The ids of the shown entries, in order.
    pub closed spec fn visible(&self) -> Seq<usize> {
        self.visible@
    }

    pub closed spec fn selection(&self) -> Seq<usize> {
        self.selection@
    }

    pub closed spec fn coordinator(&self) -> CoordinatorModel {
        self.coordinator@
    }

    pub closed spec fn cache_counter(&self) -> CacheCounter {
        self.cache.counter()
    }

    pub closed spec fn validates(&self) -> bool {
        self.validate
    }

    /// The children of `node` that are shown under `query`.
    pub open spec fn shown(&self, node: usize, query: Seq<char>) -> Seq<usize> {
        filtered(self.nodes(), self.nodes()[node as int].children@, query)
    }

    pub closed spec fn wf(&self) -> bool {
        &&& self.cache.slot() is Some
        &&& catalog_wf(self.snapshot())
        &&& self.category < self.snapshot().len()
        &&& frames_wf(self.nodes(), self.frames@)
        &&& self.visible@ == self.shown(self.location(), self.search@)
        &&& self.visible@.len() > 0 ==> self.selected < self.visible@.len()
        &&& self.selection.wf()
        &&& forall|i: int|
            0 <= i < self.selection@.len() ==> selectable(self.nodes(), #[trigger] self.selection@[i])
    }

    /// The invariant's consequences that callers reason with.
    pub proof fn lemma_wf(&self)
        requires
            self.wf(),
        ensures
            catalog_wf(self.snapshot()),
            0 <= self.category_index() < self.snapshot().len(),
            self.current().wf(),
            frames_wf(self.nodes(), self.frames()),
            self.depth() >= 1,
            self.frames()[0].node == 0,
            self.location() < self.nodes().len(),
            self.visible() == self.shown(self.location(), self.search_text()),
            self.visible().len() > 0 ==> self.cursor() < self.visible().len(),
            forall|i: int|
                0 <= i < self.selection().len() ==> selectable(
                    self.nodes(),
                    #[trigger] self.selection()[i],
                ),
            self.selection().no_duplicates(),
    {
    }

    pub closed spec fn loaded_catalog(&self) -> Catalog {
        self.cache.slot()->Some_0
    }

    /// Opens a session on the first category's root, loading the catalog from `provider`.
    pub fn new<F: FnOnce(bool) -> Catalog>(validate: bool, provider: F) -> (r: Session)
        requires
            provider.requires((validate,)),
        ensures
            r.wf(),
            provider.ensures((validate,), r.loaded_catalog()),
            r.snapshot() == r.loaded_catalog()@,
            r.validates() == validate,
            r.category_index() == 0,
            r.frames() == seq![Frame { node: 0, selected: 0 }],
            r.cursor() == 0,
            r.search_text().len() == 0,
            r.visible() == r.nodes()[0].children@,
            r.selection().len() == 0,
            r.coordinator().queued.len() == 0,
            r.coordinator().in_flight is None,
            r.coordinator().done.len() == 0,
            !r.coordinator().executing,
            r.cache_counter() == (CacheCounter { filled: true, provider_calls: 1 }),
    {
        let mut cache = CatalogCache::new();
        cache.load(validate, provider);
        let search = String::new();
        let visible = match cache.get() {
            Some(c) => {
                let cats = c.categories();
                filter_children(&cats[0], 0, search.as_str())
            },
            None => vstd::pervasive::unreached(),
        };
        let mut frames: Vec<Frame> = Vec::new();
        frames.push(Frame { node: 0, selected: 0 });
        let r = Session {
            cache,
            validate,
            category: 0,
            frames,
            selected: 0,
            search,
            visible,
            selection: SelectionSet::new(),
            coordinator: ExecutionCoordinator::new(),
        };
        proof {
            lemma_filtered_empty_query(r.nodes(), r.nodes()[0].children@, r.search@);
            assert(r.frames@ =~= seq![Frame { node: 0, selected: 0 }]);
            assert(r.snapshot()[0].wf());
        }
        r
    }

    /// The names of all categories, in catalog order. Never asks the provider.
    pub fn list_categories(&self) -> (r: Vec<String>)
        requires
            self.wf(),
        ensures
            r@.len() == self.snapshot().len(),
            forall|k: int| 0 <= k < r@.len() ==> #[trigger] r@[k]@ == self.snapshot()[k].name@,
    {
        self.catalog().category_names()
    }

    /// The shown entries of the current location, in order.
    pub fn current_items(&self) -> (r: Vec<ListEntry>)
        requires
            self.wf(),
        ensures
            r@.len() == self.visible().len(),
            forall|k: int|
                0 <= k < r@.len() ==> describes(
                    #[trigger] r@[k],
                    self.visible()[k],
                    self.nodes()[self.visible()[k] as int],
                    self.selection().contains(self.visible()[k]),
                ),
    {
        let cat = self.current_category();
        let mut r: Vec<ListEntry> = Vec::new();
        let mut k: usize = 0;
        proof {
            lemma_filtered_within(self.nodes(), self.nodes()[self.location() as int].children@, self.search@);
        }
        while k < self.visible.len()
            invariant
                self.wf(),
                *cat == self.current(),
                cat.wf(),
                k <= self.visible@.len(),
                r@.len() == k,
                forall|i: int| 0 <= i < self.visible@.len() ==> #[trigger] self.visible@[i] < cat.nodes@.len(),
                forall|i: int|
                    0 <= i < k ==> describes(
                        #[trigger] r@[i],
                        self.visible@[i],
                        self.nodes()[self.visible@[i] as int],
                        self.selection@.contains(self.visible@[i]),
                    ),
            decreases self.visible@.len() - k,
        {
            let id = self.visible[k];
            let node = &cat.nodes[id];
            r.push(
                ListEntry {
                    id,
                    name: node.name.clone(),
                    description: node.description.clone(),
                    tags: node.task_list.clone(),
                    has_children: node.children.len() > 0,
                    multi_select: node.multi_select,
                    is_multi_selected: self.selection.contains(id),
                },
            );
            k = k + 1;
        }
        r
    }

    /// Whether the location is the category's root.
    pub fn at_root(&self) -> (r: bool)
        requires
            self.wf(),
        ensures
            r == (self.depth() == 1),
    {
        self.frames.len() <= 1
    }

    /// The cursor position within the shown entries.
    pub fn selected_index(&self) -> (r: usize)
        ensures
            r == self.cursor(),
    {
        self.selected
    }

    /// Moves the cursor to a shown entry; an index past the end changes nothing.
    pub fn set_selected_index(&mut self, index: usize)
        requires
            old(self).wf(),
        ensures
            final(self).wf(),
            index < old(self).visible().len() ==> final(self).cursor() == index
                && moved_cursor(*old(self), *final(self)),
            index >= old(self).visible().len() ==> *final(self) == *old(self),
    {
        if index < self.visible.len() {
            self.selected = index;
        }
    }

    fn visible_contains(&self, node: usize) -> (r: bool)
        ensures
            r == self.visible@.contains(node),
    {
        let mut k: usize = 0;
        while k < self.visible.len()
            invariant
                k <= self.visible@.len(),
                forall|i: int| 0 <= i < k ==> self.visible@[i] != node,
            decreases self.visible@.len() - k,
        {
            if self.visible[k] == node {
                return true;
            }
            k = k + 1;
        }
        false
    }

    /// Opens a shown entry that has children: its frame is pushed with the current
    /// cursor, the cursor goes to the first entry and the search text is cleared. An
    /// entry without children leaves everything as it is.
    pub fn enter(&mut self, node: usize) -> (r: Result<(), CoreError>)
        requires
            old(self).wf(),
        ensures
            final(self).wf(),
            final(self).depth() >= 1,
            !old(self).visible().contains(node) ==> r == Err::<(), CoreError>(CoreError::NotFound)
                && *final(self) == *old(self),
            old(self).visible().contains(node) && !old(self).nodes()[node as int].has_children()
                ==> r == Ok::<(), CoreError>(()) && *final(self) == *old(self),
            old(self).visible().contains(node) && old(self).nodes()[node as int].has_children()
                ==> r == Ok::<(), CoreError>(()) && entered(*old(self), node, *final(self)),
    {
        if !self.visible_contains(node) {
            return Err(CoreError::NotFound);
        }
        proof {
            lemma_filtered_within(self.nodes(), self.nodes()[self.location() as int].children@, self.search@);
            let kids = self.nodes()[self.location() as int].children@;
            let w = choose|w: int| 0 <= w < kids.len() && kids[w] == node;
            assert(self.current().wf());
            assert(self.nodes()[self.location() as int].children@[w] == node);
        }
        let has_children = self.current_category().nodes[node].children.len() > 0;
        if !has_children {
            return Ok(());
        }
        let ghost before = *self;
        self.frames.push(Frame { node, selected: self.selected });
        self.selected = 0;
        self.search = String::new();
        let v = filter_children(self.open_category(), node, self.search.as_str());
        self.visible = v;
        proof {
            let nodes = self.nodes();
            let fr = self.frames@;
            assert(fr.drop_last() =~= before.frames@);
            assert forall|i: int| 1 <= i < fr.len() implies #[trigger] fr[i].selected < nodes[fr[i
                - 1].node as int].children@.len() by {
                if i < fr.len() - 1 {
                    assert(fr[i] == before.frames@[i]);
                    assert(fr[i - 1] == before.frames@[i - 1]);
                }
            }
            assert forall|i: int| 0 <= i < fr.len() implies #[trigger] fr[i].node < nodes.len() by {
                if i < fr.len() - 1 {
                    assert(fr[i] == before.frames@[i]);
                }
            }
            lemma_filtered_empty_query(nodes, nodes[node as int].children@, self.search@);
        }
        Ok(())
    }

    /// Leaves the current location: the top frame is popped, its stored cursor comes back
    /// and the search text is cleared. At the root nothing changes.
    pub fn go_back(&mut self)
        requires
            old(self).wf(),
        ensures
            final(self).wf(),
            final(self).depth() >= 1,
            old(self).depth() == 1 ==> *final(self) == *old(self),
            old(self).depth() > 1 ==> went_back(*old(self), *final(self)),
    {
        if self.frames.len() <= 1 {
            return;
        }
        let ghost before = *self;
        let top = self.frames.pop().unwrap();
        self.search = String::new();
        let location = self.frames[self.frames.len() - 1].node;
        let v = filter_children(self.open_category(), location, self.search.as_str());
        self.visible = v;
        self.selected = if top.selected >= self.visible.len() && self.visible.len() > 0 {
            0
        } else {
            top.selected
        };
        proof {
            let fr = self.frames@;
            assert(fr =~= before.frames@.drop_last());
            assert forall|i: int| 1 <= i < fr.len() implies #[trigger] fr[i].selected < self.nodes()[fr[i
                - 1].node as int].children@.len() by {
                assert(fr[i] == before.frames@[i]);
                assert(fr[i - 1] == before.frames@[i - 1]);
            }
            assert forall|i: int| 0 <= i < fr.len() implies #[trigger] fr[i].node < self.nodes().len() by {
                assert(fr[i] == before.frames@[i]);
            }
        }
    }

    /// Back to the open category's root with an empty search and an empty batch.
    fn reset_navigation(&mut self)
        requires
            old(self).cache.slot() is Some,
            catalog_wf(old(self).snapshot()),
            old(self).category < old(self).snapshot().len(),
        ensures
            final(self).wf(),
            at_fresh_root(*final(self)),
            final(self).cache == old(self).cache,
            final(self).category == old(self).category,
            final(self).validate == old(self).validate,
            final(self).coordinator == old(self).coordinator,
    {
        let mut frames: Vec<Frame> = Vec::new();
        frames.push(Frame { node: 0, selected: 0 });
        self.frames = frames;
        self.selected = 0;
        self.search = String::new();
        let v = filter_children(self.open_category(), 0, self.search.as_str());
        self.visible = v;
        self.selection.clear();
        proof {
            assert(self.snapshot()[self.category as int].wf());
            lemma_filtered_empty_query(self.nodes(), self.nodes()[0].children@, self.search@);
            assert(self.frames@ =~= seq![Frame { node: 0, selected: 0 }]);
        }
    }

    /// Opens the category with the given name at its root; the batch is emptied.
    pub fn switch_category(&mut self, name: &str) -> (r: Result<(), CoreError>)
        requires
            old(self).wf(),
        ensures
            final(self).wf(),
            (forall|k: int|
                0 <= k < old(self).snapshot().len() ==> #[trigger] old(self).snapshot()[k].name@
                    != name@) ==> r == Err::<(), CoreError>(CoreError::NotFound) && *final(self)
                == *old(self),
            (exists|k: int|
                0 <= k < old(self).snapshot().len() && #[trigger] old(self).snapshot()[k].name@
                    == name@) ==> {
                &&& r == Ok::<(), CoreError>(())
                &&& final(self).current().name@ == name@
                &&& forall|a: int|
                    0 <= a < final(self).category_index() ==> old(self).snapshot()[a].name@ != name@
                &&& at_fresh_root(*final(self))
                &&& final(self).snapshot() == old(self).snapshot()
                &&& final(self).loaded_catalog() == old(self).loaded_catalog()
                &&& final(self).coordinator() == old(self).coordinator()
                &&& final(self).cache_counter() == old(self).cache_counter()
                &&& final(self).validates() == old(self).validates()
            },
    {
        match self.catalog().find_category(name) {
            None => Err(CoreError::NotFound),
            Some(k) => {
                self.category = k;
                self.reset_navigation();
                Ok(())
            },
        }
    }

    /// Shows the children of the current location that match `text`; the cursor is
    /// reset when it falls off the end of the new list.
    pub fn set_search(&mut self, text: &str)
        requires
            old(self).wf(),
        ensures
            final(self).wf(),
            same_outside_navigation(*old(self), *final(self)),
            final(self).frames() == old(self).frames(),
            final(self).search_text() == text@,
            final(self).visible() == final(self).shown(final(self).location(), text@),
            final(self).cursor() == clamped(old(self).cursor(), final(self).visible().len()),
    {
        self.search = text.to_string();
        let location = self.frames[self.frames.len() - 1].node;
        let v = filter_children(self.open_category(), location, self.search.as_str());
        self.visible = v;
        if self.selected >= self.visible.len() && self.visible.len() > 0 {
            self.selected = 0;
        }
    }

    /// Marks or unmarks a node of the open category for the batch; a node that does not
    /// allow it, or has no command, is left as it is.
    pub fn toggle_selection(&mut self, node: usize) -> (r: Result<(), CoreError>)
        requires
            old(self).wf(),
        ensures
            final(self).wf(),
            node >= old(self).nodes().len() ==> r == Err::<(), CoreError>(CoreError::NotFound)
                && *final(self) == *old(self),
            node < old(self).nodes().len() ==> {
                &&& r == Ok::<(), CoreError>(())
                &&& final(self).selection().to_set() == toggled(
                    old(self).selection().to_set(),
                    node,
                    selectable(old(self).nodes(), node),
                )
                &&& !selectable(old(self).nodes(), node) ==> final(self).selection() == old(
                    self,
                ).selection()
                &&& selectable(old(self).nodes(), node) && !old(self).selection().contains(node)
                    ==> final(self).selection() == old(self).selection().push(node)
                &&& selectable(old(self).nodes(), node) && old(self).selection().contains(node)
                    ==> exists|i: int|
                    0 <= i < old(self).selection().len() && old(self).selection()[i] == node
                        && final(self).selection() == old(self).selection().remove(i)
                &&& moved_selection(*old(self), *final(self))
            },
    {
        let cat = self.open_category();
        if node >= cat.nodes.len() {
            return Err(CoreError::NotFound);
        }
        let can = cat.nodes[node].multi_select;
        let ghost before = self.selection@;
        self.selection.toggle(node, can);
        proof {
            assert forall|i: int|
                0 <= i < self.selection@.len() implies selectable(
                self.nodes(),
                #[trigger] self.selection@[i],
            ) by {
                let x = self.selection@[i];
                assert(self.selection@.to_set().contains(x));
                if x != node {
                    assert(before.to_set().contains(x));
                    let j = choose|j: int| 0 <= j < before.len() && before[j] == x;
                    assert(selectable(self.nodes(), before[j]));
                }
            }
        }
        Ok(())
    }

    fn request_for_node(&self, node: usize) -> (r: ExecutionRequest)
        requires
            self.cache.slot() is Some,
            self.category < self.snapshot().len(),
            node < self.nodes().len(),
        ensures
            request_for(r, self.current(), node),
    {
        let cat = self.open_category();
        ExecutionRequest {
            category: cat.name.clone(),
            node,
            command: cat.nodes[node].command.duplicate(),
        }
    }

    /// Queues a run of a node of the open category and returns at once. A node without
    /// a command is refused before anything is queued.
    pub fn execute(&mut self, node: usize) -> (r: Result<(), CoreError>)
        requires
            old(self).wf(),
        ensures
            final(self).wf(),
            node >= old(self).nodes().len() ==> r == Err::<(), CoreError>(CoreError::NotFound)
                && *final(self) == *old(self),
            node < old(self).nodes().len() && !old(self).nodes()[node as int].command.is_executable()
                ==> r == Err::<(), CoreError>(CoreError::NotExecutable) && *final(self) == *old(
                self,
            ),
            node < old(self).nodes().len() && old(self).nodes()[node as int].command.is_executable()
                ==> {
                &&& r == Ok::<(), CoreError>(())
                &&& final(self).coordinator().queued.len() == old(self).coordinator().queued.len()
                    + 1
                &&& request_for(final(self).coordinator().queued.last(), old(self).current(), node)
                &&& final(self).coordinator() == old(self).coordinator().after_submit(
                    final(self).coordinator().queued.last(),
                )
                &&& moved_coordinator(*old(self), *final(self))
            },
    {
        let cat = self.open_category();
        if node >= cat.nodes.len() {
            return Err(CoreError::NotFound);
        }
        if let CommandSpec::Directory = cat.nodes[node].command {
            return Err(CoreError::NotExecutable);
        }
        let req = self.request_for_node(node);
        self.coordinator.submit(req);
        Ok(())
    }

    /// Whether every node of the batch has a command to run.
    fn batch_is_executable(&self) -> (r: bool)
        requires
            self.wf(),
        ensures
            r == batch_executable(self.nodes(), self.selection()),
    {
        let cat = self.open_category();
        let n = self.selection.len();
        let mut i: usize = 0;
        while i < n
            invariant
                self.wf(),
                *cat == self.current(),
                n == self.selection@.len(),
                i <= n,
                forall|j: int| 0 <= j < i ==> #[trigger] self.nodes()[self.selection@[j] as int].command.is_executable(),
            decreases n - i,
        {
            let id = self.selection.get(i);
            proof {
                assert(selectable(self.nodes(), self.selection@[i as int]));
            }
            if let CommandSpec::Directory = cat.nodes[id].command {
                assert(!self.nodes()[self.selection@[i as int] as int].command.is_executable());
                return false;
            }
            i = i + 1;
        }
        true
    }

    /// Queues one run per node of the batch, in the order they were marked, then
    /// empties the batch and returns how many were queued. A batch holding a node
    /// without a command is refused whole, before anything is queued.
    pub fn execute_selected(&mut self) -> (r: Result<usize, CoreError>)
        requires
            old(self).wf(),
        ensures
            final(self).wf(),
            !batch_executable(old(self).nodes(), old(self).selection()) ==> r == Err::<
                usize,
                CoreError,
            >(CoreError::NotExecutable) && *final(self) == *old(self),
            batch_executable(old(self).nodes(), old(self).selection()) ==> r == Ok::<
                usize,
                CoreError,
            >(old(self).selection().len() as usize) && queued_batch(*old(self), *final(self)),
    {
        if !self.batch_is_executable() {
            return Err(CoreError::NotExecutable);
        }
        Ok(self.queue_batch())
    }

    fn queue_batch(&mut self) -> (r: usize)
        requires
            old(self).wf(),
        ensures
            final(self).wf(),
            r == old(self).selection().len(),
            queued_batch(*old(self), *final(self)),
    {
        let ghost start = self.coordinator@;
        let ghost sel = self.selection@;
        let n = self.selection.len();
        let mut i: usize = 0;
        while i < n
            invariant
                self.wf(),
                n == sel.len(),
                sel == self.selection@,
                i <= n,
                self.coordinator@.pending() == start.pending() + sel.subrange(0, i as int),
                self.coordinator@.queued.len() == start.queued.len() + i,
                self.coordinator@.queued.subrange(0, start.queued.len() as int) == start.queued,
                forall|j: int|
                    0 <= j < i ==> request_for(
                        #[trigger] self.coordinator@.queued[start.queued.len() + j],
                        self.current(),
                        sel[j],
                    ),
                self.coordinator@.in_flight == start.in_flight,
                self.coordinator@.done == start.done,
                self.coordinator@.executing == (start.executing || i > 0),
                self.frames@ == old(self).frames@,
                self.selected == old(self).selected,
                self.search@ == old(self).search@,
                self.visible@ == old(self).visible@,
                self.cache == old(self).cache,
                self.category == old(self).category,
                self.validate == old(self).validate,
            decreases n - i,
        {
            let id = self.selection.get(i);
            proof {
                assert(selectable(self.nodes(), sel[i as int]));
            }
            let req = self.request_for_node(id);
            let ghost prev = self.coordinator@;
            self.coordinator.submit(req);
            proof {
                lemma_submit_appends(prev, req);
                assert(sel.subrange(0, i + 1) =~= sel.subrange(0, i as int).push(id));
                assert(self.coordinator@.queued.subrange(0, start.queued.len() as int)
                    =~= prev.queued.subrange(0, start.queued.len() as int));
            }
            i = i + 1;
        }
        proof {
            assert(sel.subrange(0, n as int) =~= sel);
        }
        self.selection.clear();
        n
    }

    /// Hands the oldest waiting request to the worker, unless it is busy or nothing waits.
    pub fn dispatch_next(&mut self) -> (r: Option<ExecutionRequest>)
        requires
            old(self).wf(),
        ensures
            final(self).wf(),
            moved_coordinator(*old(self), *final(self)),
            final(self).coordinator() == old(self).coordinator().after_dispatch(),
            old(self).coordinator().can_dispatch() ==> r == Some(
                old(self).coordinator().queued[0],
            ),
            !old(self).coordinator().can_dispatch() ==> r is None,
    {
        self.coordinator.dispatch()
    }

    /// Records the worker's report on the request it was running.
    pub fn complete(&mut self, result: CommandExecutionResult)
        requires
            old(self).wf(),
        ensures
            final(self).wf(),
            moved_coordinator(*old(self), *final(self)),
            final(self).coordinator() == old(self).coordinator().after_complete(result),
    {
        self.coordinator.complete(result);
    }

    /// The oldest report not yet collected, if any; never waits.
    pub fn poll_result(&mut self) -> (r: Option<CommandExecutionResult>)
        requires
            old(self).wf(),
        ensures
            final(self).wf(),
            moved_coordinator(*old(self), *final(self)),
            final(self).coordinator() == old(self).coordinator().after_poll(),
            old(self).coordinator().done.len() > 0 ==> r == Some(
                old(self).coordinator().done[0].result,
            ),
            old(self).coordinator().done.len() == 0 ==> r is None,
    {
        match self.coordinator.poll() {
            Some(run) => Some(run.result),
            None => None,
        }
    }

    /// Whether a run is outstanding, as the busy indicator shows it.
    pub fn is_executing(&self) -> (r: bool)
        ensures
            r == self.coordinator().executing,
    {
        self.coordinator.is_executing()
    }

    /// Drops the cached catalog and loads a fresh one from `provider`: exactly one
    /// provider call. The open category is kept when it still exists, else the first one
    /// is opened; navigation returns to its root and the batch is emptied.
    pub fn refresh_catalog<F: FnOnce(bool) -> Catalog>(&mut self, provider: F)
        requires
            old(self).wf(),
            provider.requires((old(self).validates(),)),
        ensures
            final(self).wf(),
            final(self).cache_counter() == old(self).cache_counter().after_invalidate().after_load(),
            final(self).cache_counter().provider_calls == old(self).cache_counter().provider_calls + 1,
            provider.ensures((old(self).validates(),), final(self).loaded_catalog()),
            final(self).snapshot() == final(self).loaded_catalog()@,
            old(self).category_index() < final(self).snapshot().len() ==> final(self).category_index()
                == old(self).category_index(),
            old(self).category_index() >= final(self).snapshot().len() ==> final(self).category_index()
                == 0,
            at_fresh_root(*final(self)),
            final(self).coordinator() == old(self).coordinator(),
            final(self).validates() == old(self).validates(),
    {
        self.cache.invalidate();
        self.cache.load(self.validate, provider);
        let count = self.catalog_len();
        if self.category >= count {
            self.category = 0;
        }
        self.reset_navigation();
    }

    fn catalog_len(&self) -> (r: usize)
        requires
            self.cache.slot() is Some,
        ensures
            r == self.snapshot().len(),
            catalog_wf(self.snapshot()),
    {
        match self.cache.get() {
            Some(c) => c.categories().len(),
            None => vstd::pervasive::unreached(),
        }
    }

    /// The open category's name followed by the name of the node of every frame above
    /// the root.
    pub fn breadcrumb(&self) -> (r: Vec<String>)
        requires
            self.wf(),
        ensures
            r@.len() == self.depth(),
            r@[0]@ == self.current().name@,
            forall|i: int|
                1 <= i < r@.len() ==> #[trigger] r@[i]@ == self.nodes()[self.frames()[i].node as int].name@,
    {
        let cat = self.open_category();
        let mut r: Vec<String> = Vec::new();
        r.push(cat.name.clone());
        let mut i: usize = 1;
        while i < self.frames.len()
            invariant
                self.wf(),
                *cat == self.current(),
                1 <= i <= self.frames@.len(),
                r@.len() == i,
                r@[0]@ == cat.name@,
                forall|j: int|
                    1 <= j < i ==> #[trigger] r@[j]@ == cat.nodes@[self.frames@[j].node as int].name@,
            decreases self.frames@.len() - i,
        {
            let id = self.frames[i].node;
            r.push(cat.nodes[id].name.clone());
            i = i + 1;
        }
        r
    }

    /// The preview of a node of the open category; `source` is the script's text for a
    /// script node, or `None` when it could not be read.
    pub fn preview(&self, node: usize, source: Option<&str>) -> (r: Result<String, CoreError>)
        requires
            self.wf(),
        ensures
            node >= self.nodes().len() ==> r == Err::<String, CoreError>(CoreError::NotFound),
            node < self.nodes().len() ==> (r matches Ok(text) && text@ == preview_of(
                self.nodes()[node as int],
                option_view(source),
            )),
    {
        let cat = self.open_category();
        if node >= cat.nodes.len() {
            return Err(CoreError::NotFound);
        }
        Ok(preview_text(&cat.nodes[node], source))
    }

    /// The breadcrumb as one line, its parts separated by " › ".
    pub fn breadcrumb_text(&self) -> (r: String)
        requires
            self.wf(),
        ensures
            exists|parts: Seq<Seq<char>>|
                {
                    &&& parts.len() == self.depth()
                    &&& parts[0] == self.current().name@
                    &&& (forall|i: int|
                        1 <= i < parts.len() ==> #[trigger] parts[i] == self.nodes()[self.frames()[i].node as int].name@)
                    &&& r@ == joined(parts, " › "@)
                },
    {
        let parts = self.breadcrumb();
        let r = join_strings(&parts, " › ");
        proof {
            let views = parts@.map_values(|s: String| s@);
            assert(views.len() == self.depth());
            assert(forall|i: int| 0 <= i < views.len() ==> views[i] == parts@[i]@);
        }
        r
    }

    /// The loaded catalog snapshot.
    pub fn loaded(&self) -> (r: &Catalog)
        requires
            self.wf(),
        ensures
            *r == self.loaded_catalog(),
            r@ == self.snapshot(),
    {
        self.catalog()
    }

    fn catalog(&self) -> (r: &Catalog)
        requires
            self.wf(),
        ensures
            self.cache.slot() == Some(*r),
            r@ == self.snapshot(),
    {
        match self.cache.get() {
            Some(c) => c,
            None => vstd::pervasive::unreached(),
        }
    }

    /// The open category.
    pub fn current_category(&self) -> (r: &Category)
        requires
            self.wf(),
        ensures
            *r == self.current(),
            r.wf(),
    {
        self.open_category()
    }

    fn open_category(&self) -> (r: &Category)
        requires
            self.cache.slot() is Some,
            self.category < self.snapshot().len(),
        ensures
            *r == self.current(),
            r.wf(),
    {
        match self.cache.get() {
            Some(c) => {
                let cats = c.categories();
                &cats[self.category]
            },
            None => vstd::pervasive::unreached(),
        }
    }
}

/// An entry shows node `id`, whose data is `node`, and whether it is in the batch.
pub open spec fn describes(e: ListEntry, id: usize, node: CatalogNode, marked: bool) -> bool {
    &&& e.id == id
    &&& e.name@ == node.name@
    &&& e.description@ == node.description@
    &&& e.tags@ == node.task_list@
    &&& e.has_children == node.has_children()
    &&& e.multi_select == node.multi_select
    &&& e.is_multi_selected == marked
}

/// Everything but the navigation state is the same in `a` and `b`.
pub open spec fn same_outside_navigation(a: Session, b: Session) -> bool {
    &&& b.loaded_catalog() == a.loaded_catalog()
    &&& b.snapshot() == a.snapshot()
    &&& b.category_index() == a.category_index()
    &&& b.selection() == a.selection()
    &&& b.coordinator() == a.coordinator()
    &&& b.cache_counter() == a.cache_counter()
    &&& b.validates() == a.validates()
}

/// The session stands at the open category's root, with no search and an empty batch.
pub open spec fn at_fresh_root(s: Session) -> bool {
    &&& s.frames() == seq![Frame { node: 0, selected: 0 }]
    &&& s.cursor() == 0
    &&& s.search_text().len() == 0
    &&& s.visible() == s.nodes()[0].children@
    &&& s.selection().len() == 0
}

/// `b` differs from `a` in the batch at most.
pub open spec fn moved_selection(a: Session, b: Session) -> bool {
    &&& b.loaded_catalog() == a.loaded_catalog()
    &&& b.snapshot() == a.snapshot()
    &&& b.category_index() == a.category_index()
    &&& b.coordinator() == a.coordinator()
    &&& b.cache_counter() == a.cache_counter()
    &&& b.validates() == a.validates()
    &&& b.frames() == a.frames()
    &&& b.cursor() == a.cursor()
    &&& b.search_text() == a.search_text()
    &&& b.visible() == a.visible()
}

/// `b` differs from `a` in the coordinator at most.
pub open spec fn moved_coordinator(a: Session, b: Session) -> bool {
    &&& b.loaded_catalog() == a.loaded_catalog()
    &&& b.snapshot() == a.snapshot()
    &&& b.category_index() == a.category_index()
    &&& b.selection() == a.selection()
    &&& b.cache_counter() == a.cache_counter()
    &&& b.validates() == a.validates()
    &&& b.frames() == a.frames()
    &&& b.cursor() == a.cursor()
    &&& b.search_text() == a.search_text()
    &&& b.visible() == a.visible()
}

/// `req` runs node `node` of category `cat`, with that node's command.
pub open spec fn request_for(req: ExecutionRequest, cat: Category, node: usize) -> bool {
    &&& req.node == node
    &&& req.category@ == cat.name@
    &&& req.command@ == cat.nodes@[node as int].command@
}

/// `b` is `a` after queuing its whole batch, in batch order, and emptying it.
pub open spec fn queued_batch(a: Session, b: Session) -> bool {
    let n = a.selection().len();
    let start = a.coordinator().queued.len();
    &&& b.selection().len() == 0
    &&& b.coordinator().pending() == a.coordinator().pending() + a.selection()
    &&& b.coordinator().queued.len() == start + n
    &&& b.coordinator().queued.subrange(0, start as int) == a.coordinator().queued
    &&& forall|i: int|
        0 <= i < n ==> request_for(
            #[trigger] b.coordinator().queued[start + i],
            a.current(),
            a.selection()[i],
        )
    &&& b.coordinator().in_flight == a.coordinator().in_flight
    &&& b.coordinator().done == a.coordinator().done
    &&& b.coordinator().executing == (a.coordinator().executing || n > 0)
    &&& b.frames() == a.frames()
    &&& b.cursor() == a.cursor()
    &&& b.search_text() == a.search_text()
    &&& b.visible() == a.visible()
    &&& b.snapshot() == a.snapshot()
    &&& b.loaded_catalog() == a.loaded_catalog()
    &&& b.category_index() == a.category_index()
    &&& b.cache_counter() == a.cache_counter()
    &&& b.validates() == a.validates()
}

/// `b` differs from `a` in the cursor at most.
pub open spec fn moved_cursor(a: Session, b: Session) -> bool {
    &&& same_outside_navigation(a, b)
    &&& b.frames() == a.frames()
    &&& b.search_text() == a.search_text()
    &&& b.visible() == a.visible()
}

/// `b` is `a` after entering the shown entry `node`.
pub open spec fn entered(a: Session, node: usize, b: Session) -> bool {
    &&& same_outside_navigation(a, b)
    &&& a.visible().contains(node)
    &&& b.frames() == a.frames().push(Frame { node, selected: a.cursor() })
    &&& b.cursor() == 0
    &&& b.search_text().len() == 0
    &&& b.visible() == b.nodes()[node as int].children@
}

/// `b` is `a` after leaving a location above the root.
pub open spec fn went_back(a: Session, b: Session) -> bool {
    &&& same_outside_navigation(a, b)
    &&& b.frames() == a.frames().drop_last()
    &&& b.search_text().len() == 0
    &&& b.visible() == b.shown(b.location(), b.search_text())
    &&& b.cursor() == clamped(a.frames().last().selected, b.visible().len())
}

/// After a search, every shown entry is a child of the current location whose name or
/// description contains the query, ignoring case; an empty query shows every child, in
/// order.
pub proof fn lemma_search_shows_matching_children(s: Session)
    requires
        s.wf(),
    ensures
        forall|k: int|
            0 <= k < s.visible().len() ==> s.nodes()[s.location() as int].children@.contains(
                #[trigger] s.visible()[k],
            ) && node_matches(s.nodes()[s.visible()[k] as int], s.search_text()),
        s.search_text().len() == 0 ==> s.visible() == s.nodes()[s.location() as int].children@,
{
    let kids = s.nodes()[s.location() as int].children@;
    lemma_filtered_within(s.nodes(), kids, s.search_text());
    if s.search_text().len() == 0 {
        lemma_filtered_empty_query(s.nodes(), kids, s.search_text());
    }
}

/// Entering a location and leaving it again brings back the path and the cursor that
/// were active before.
pub proof fn lemma_back_restores_cursor(a: Session, node: usize, b: Session, c: Session)
    requires
        a.wf(),
        entered(a, node, b),
        went_back(b, c),
    ensures
        c.frames() == a.frames(),
        c.location() == a.location(),
        c.cursor() == a.cursor(),
{
    a.lemma_wf();
    assert(b.frames().drop_last() =~= a.frames());
    let kids = a.nodes()[a.location() as int].children@;
    lemma_filtered_within(a.nodes(), kids, a.search_text());
    lemma_filtered_empty_query(a.nodes(), kids, c.search_text());
    assert(a.visible().len() > 0);
}

} // verus!
