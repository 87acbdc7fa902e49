use vstd::prelude::*;

verus! {

/// Errors raised to the caller before anything reaches the worker.
#[derive(Clone, Copy, Debug, PartialEq, Eq, Structural)]
pub enum CoreError {
    /// An unknown category or node.
    NotFound,
    /// The node groups other nodes and has no command.
    NotExecutable,
}

/// Which part of a lookup by names failed.
#[derive(Clone, Copy, Debug, PartialEq, Eq, Structural)]
pub enum LookupError {
    /// No category has the name.
    CategoryNotFound,
    /// The category has no node of that name without children.
    CommandNotFound,
}

impl LookupError {
    pub fn message(&self) -> (r: &'static str)
        ensures
            *self == LookupError::CategoryNotFound ==> r@ == "Tab not found"@,
            *self == LookupError::CommandNotFound ==> r@ == "Command not found"@,
    {
        match self {
            LookupError::CategoryNotFound => "Tab not found",
            LookupError::CommandNotFound => "Command not found",
        }
    }
}

/// Category `k` is the first one named `name`.
pub open spec fn first_category_named(cats: Seq<Category>, k: int, name: Seq<char>) -> bool {
    &&& 0 <= k < cats.len()
    &&& cats[k].name@ == name
    &&& forall|a: int| 0 <= a < k ==> cats[a].name@ != name
}

/// Abstract form of a command specification: strings as character sequences.
pub enum CommandModel {
    Raw(Seq<char>),
    LocalFile { executable: Seq<char>, args: Seq<Seq<char>>, source_path: Seq<char> },
    Directory,
}

/// How a catalog node is run. `Directory` marks a grouping node, which is never executable.
pub enum CommandSpec {
    Raw(String),
    LocalFile { executable: String, args: Vec<String>, source_path: String },
    Directory,
}

pub open spec fn strings_view(v: Seq<String>) -> Seq<Seq<char>> {
    v.map_values(|s: String| s@)
}

impl View for CommandSpec {
    type V = CommandModel;

    open spec fn view(&self) -> CommandModel {
        match self {
            CommandSpec::Raw(text) => CommandModel::Raw(text@),
            CommandSpec::LocalFile { executable, args, source_path } => CommandModel::LocalFile {
                executable: executable@,
                args: strings_view(args@),
                source_path: source_path@,
            },
            CommandSpec::Directory => CommandModel::Directory,
        }
    }
}

/// A copy of a list of strings, element by element.
pub fn copy_strings(v: &Vec<String>) -> (r: Vec<String>)
    ensures
        strings_view(r@) == strings_view(v@),
{
    let mut r: Vec<String> = Vec::new();
    let mut i: usize = 0;
    while i < v.len()
        invariant
            i <= v@.len(),
            r@.len() == i,
            forall|k: int| 0 <= k < i ==> #[trigger] r@[k]@ == v@[k]@,
        decreases v@.len() - i,
    {
        r.push(v[i].clone());
        i = i + 1;
    }
    assert(strings_view(r@) =~= strings_view(v@));
    r
}

impl CommandSpec {
    pub open spec fn is_executable(&self) -> bool {
        !(self is Directory)
    }

    pub fn duplicate(&self) -> (r: CommandSpec)
        ensures
            r@ == self@,
    {
        match self {
            CommandSpec::Raw(text) => CommandSpec::Raw(text.clone()),
            CommandSpec::LocalFile { executable, args, source_path } => CommandSpec::LocalFile {
                executable: executable.clone(),
                args: copy_strings(args),
                source_path: source_path.clone(),
            },
            CommandSpec::Directory => CommandSpec::Directory,
        }
    }
}

/// One entry of a category's tree. Its identity is its index in the category's arena.
pub struct CatalogNode {
    pub name: String,
    pub description: String,
    pub task_list: String,
    pub multi_select: bool,
    pub children: Vec<usize>,
    pub command: CommandSpec,
}

impl CatalogNode {
    pub open spec fn has_children(&self) -> bool {
        self.children@.len() > 0
    }
}

/// A named tree of nodes, held as an arena; the root is the node at index 0.
pub struct Category {
    pub name: String,
    pub nodes: Vec<CatalogNode>,
}

impl Category {
    /// The arena holds a root, and every child index points forward into the arena,
    /// so the parent/child relation has no cycle.
    pub open spec fn wf(&self) -> bool {
        &&& self.nodes@.len() > 0
        &&& forall|i: int, j: int|
            0 <= i < self.nodes@.len() && 0 <= j < self.nodes@[i].children@.len() ==> i
                < #[trigger] self.nodes@[i].children@[j] < self.nodes@.len()
    }

    /// Node `id` is a command (it has no children) named `entry`.
    pub open spec fn is_leaf_named(&self, id: int, entry: Seq<char>) -> bool {
        self.nodes@[id].name@ == entry && !self.nodes@[id].has_children()
    }

    /// The first node, in arena order, that has no children and is named `entry`.
    pub fn find_leaf(&self, entry: &str) -> (r: Option<usize>)
        ensures
            r matches Some(i) ==> i < self.nodes@.len() && self.is_leaf_named(i as int, entry@)
                && forall|j: int| 0 <= j < i ==> !self.is_leaf_named(j, entry@),
            r is None ==> forall|j: int|
                0 <= j < self.nodes@.len() ==> !#[trigger] self.is_leaf_named(j, entry@),
    {
        let target = entry.to_string();
        let mut i: usize = 0;
        while i < self.nodes.len()
            invariant
                target@ == entry@,
                i <= self.nodes@.len(),
                forall|j: int| 0 <= j < i ==> !#[trigger] self.is_leaf_named(j, entry@),
            decreases self.nodes@.len() - i,
        {
            if self.nodes[i].name == target && self.nodes[i].children.len() == 0 {
                return Some(i);
            }
            i = i + 1;
        }
        None
    }

    pub fn is_well_formed(&self) -> (r: bool)
        ensures
            r == self.wf(),
    {
        let n = self.nodes.len();
        if n == 0 {
            return false;
        }
        let mut i: usize = 0;
        while i < n
            invariant
                n == self.nodes@.len(),
                i <= n,
                forall|a: int, j: int|
                    0 <= a < i && 0 <= j < self.nodes@[a].children@.len() ==> a
                        < #[trigger] self.nodes@[a].children@[j] < n,
            decreases n - i,
        {
            let kids = &self.nodes[i].children;
            let mut j: usize = 0;
            while j < kids.len()
                invariant
                    n == self.nodes@.len(),
                    i < n,
                    kids == &self.nodes@[i as int].children,
                    j <= kids@.len(),
                    forall|a: int, b: int|
                        0 <= a < i && 0 <= b < self.nodes@[a].children@.len() ==> a
                            < #[trigger] self.nodes@[a].children@[b] < n,
                    forall|b: int| 0 <= b < j ==> i < #[trigger] kids@[b] < n,
                decreases kids@.len() - j,
            {
                let c = kids[j];
                if c <= i || c >= n {
                    return false;
                }
                j = j + 1;
            }
            assert forall|a: int, b: int|
                0 <= a < i + 1 && 0 <= b < self.nodes@[a].children@.len() implies a
                    < #[trigger] self.nodes@[a].children@[b] < n by {
                if a == i {
                    assert(kids@[b] == self.nodes@[a].children@[b]);
                }
            }
            i = i + 1;
        }
        true
    }
}

/// Every category is well formed, and there is at least one.
pub open spec fn catalog_wf(cats: Seq<Category>) -> bool {
    &&& cats.len() > 0
    &&& forall|k: int| 0 <= k < cats.len() ==> #[trigger] cats[k].wf()
}

/// One loaded snapshot of the whole catalog: one tree per category. It is immutable
/// and well formed from the moment it is built.
pub struct Catalog {
    categories: Vec<Category>,
}

impl View for Catalog {
    type V = Seq<Category>;

    closed spec fn view(&self) -> Seq<Category> {
        self.categories@
    }
}

impl Catalog {
    #[verifier::type_invariant]
    spec fn inv(self) -> bool {
        catalog_wf(self.categories@)
    }

    /// A snapshot of the given categories, provided they form a well-formed catalog.
    pub fn new(categories: Vec<Category>) -> (r: Option<Catalog>)
        ensures
            r is Some <==> catalog_wf(categories@),
            r matches Some(c) ==> c@ == categories@,
    {
        if categories.len() == 0 {
            return None;
        }
        let mut k: usize = 0;
        while k < categories.len()
            invariant
                k <= categories@.len(),
                forall|a: int| 0 <= a < k ==> #[trigger] categories@[a].wf(),
            decreases categories@.len() - k,
        {
            if !categories[k].is_well_formed() {
                return None;
            }
            k = k + 1;
        }
        Some(Catalog { categories })
    }

    /// The categories, in catalog order.
    pub fn categories(&self) -> (r: &Vec<Category>)
        ensures
            r@ == self@,
            catalog_wf(self@),
    {
        proof {
            use_type_invariant(self);
        }
        &self.categories
    }

    /// The category names, in catalog order.
    pub fn category_names(&self) -> (r: Vec<String>)
        ensures
            r@.len() == self@.len(),
            forall|k: int| 0 <= k < r@.len() ==> #[trigger] r@[k]@ == self@[k].name@,
    {
        let mut r: Vec<String> = Vec::new();
        let mut k: usize = 0;
        while k < self.categories().len()
            invariant
                k <= self@.len(),
                r@.len() == k,
                forall|a: int| 0 <= a < k ==> #[trigger] r@[a]@ == self@[a].name@,
            decreases self@.len() - k,
        {
            r.push(self.categories()[k].name.clone());
            k = k + 1;
        }
        r
    }

    /// Where the command named `entry` stands in the category named `category`: the
    /// first category of that name, and in it the first node of that name without
    /// children. The error says which of the two was not found.
    pub fn locate_command(&self, category: &str, entry: &str) -> (r: Result<(usize, usize), LookupError>)
        ensures
            (forall|a: int| 0 <= a < self@.len() ==> #[trigger] self@[a].name@ != category@) <==> r
                == Err::<(usize, usize), LookupError>(LookupError::CategoryNotFound),
            r matches Ok((k, i)) ==> first_category_named(self@, k as int, category@) && i
                < self@[k as int].nodes@.len() && self@[k as int].is_leaf_named(i as int, entry@)
                && forall|j: int| 0 <= j < i ==> !self@[k as int].is_leaf_named(j, entry@),
            r == Err::<(usize, usize), LookupError>(LookupError::CommandNotFound) ==> exists|k: int|
                first_category_named(self@, k, category@) && forall|j: int|
                    0 <= j < self@[k].nodes@.len() ==> !#[trigger] self@[k].is_leaf_named(j, entry@),
            r is Err ==> (r == Err::<(usize, usize), LookupError>(LookupError::CategoryNotFound) || r
                == Err::<(usize, usize), LookupError>(LookupError::CommandNotFound)),
    {
        let k = match self.find_category(category) {
            Some(k) => k,
            None => return Err(LookupError::CategoryNotFound),
        };
        assert(first_category_named(self@, k as int, category@));
        match self.categories()[k].find_leaf(entry) {
            Some(i) => Ok((k, i)),
            None => Err(LookupError::CommandNotFound),
        }
    }

    /// The command named `entry` in the category named `category`, as `locate_command`
    /// finds it, with either failed lookup reported as `NotFound`.
    pub fn find_command(&self, category: &str, entry: &str) -> (r: Result<(usize, usize), CoreError>)
        ensures
            r matches Ok((k, i)) ==> first_category_named(self@, k as int, category@) && i
                < self@[k as int].nodes@.len() && self@[k as int].is_leaf_named(i as int, entry@)
                && forall|j: int| 0 <= j < i ==> !self@[k as int].is_leaf_named(j, entry@),
            r is Err ==> r == Err::<(usize, usize), CoreError>(CoreError::NotFound),
            (forall|a: int| 0 <= a < self@.len() ==> #[trigger] self@[a].name@ != category@) ==> r is Err,
            (exists|k: int, j: int|
                first_category_named(self@, k, category@) && 0 <= j < self@[k].nodes@.len()
                    && self@[k].is_leaf_named(j, entry@)) ==> r is Ok,
    {
        match self.locate_command(category, entry) {
            Ok(pos) => Ok(pos),
            Err(_) => Err(CoreError::NotFound),
        }
    }

    /// The index of the first category with the given name.
    pub fn find_category(&self, name: &str) -> (r: Option<usize>)
        ensures
            r matches Some(k) ==> k < self@.len() && self@[k as int].name@
                == name@ && forall|a: int| 0 <= a < k ==> self@[a].name@ != name@,
            r is None ==> forall|a: int|
                0 <= a < self@.len() ==> #[trigger] self@[a].name@ != name@,
    {
        let target = name.to_string();
        let mut k: usize = 0;
        while k < self.categories().len()
            invariant
                target@ == name@,
                k <= self@.len(),
                forall|a: int| 0 <= a < k ==> #[trigger] self@[a].name@ != name@,
            decreases self@.len() - k,
        {
            if self.categories()[k].name == target {
                return Some(k);
            }
            k = k + 1;
        }
        None
    }
}

} // verus!
