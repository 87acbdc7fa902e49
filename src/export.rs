use vstd::prelude::*;
use crate::catalog::{strings_view, Catalog, CatalogNode, Category, CommandModel, CommandSpec};
use crate::preview::{option_view, script_text};
use crate::text::{join_strings, joined, push_char, split_on, split_text, whitespace_words, words_of};

verus! {

/// One catalog node written out flat, its command encoded as a type and a content text.
pub struct EntryInfo {
    pub name: String,
    pub description: String,
    pub command_type: String,
    pub command_content: String,
    pub task_list: String,
    pub multi_select: bool,
    pub has_children: bool,
    pub id: String,
}

/// One category written out flat: every node but the root, in arena order.
pub struct TabInfo {
    pub name: String,
    pub entries: Vec<EntryInfo>,
}

pub open spec fn digit_char(d: nat) -> char {
    if d == 0 {
        '0'
    } else if d == 1 {
        '1'
    } else if d == 2 {
        '2'
    } else if d == 3 {
        '3'
    } else if d == 4 {
        '4'
    } else if d == 5 {
        '5'
    } else if d == 6 {
        '6'
    } else if d == 7 {
        '7'
    } else if d == 8 {
        '8'
    } else {
        '9'
    }
}

/// The decimal digits of `n`, most significant first.
pub open spec fn decimal_text(n: nat) -> Seq<char>
    decreases n,
{
    if n < 10 {
        seq![digit_char(n)]
    } else {
        decimal_text(n / 10).push(digit_char(n % 10))
    }
}

fn digit(d: usize) -> (r: char)
    requires
        d < 10,
    ensures
        r == digit_char(d as nat),
{
    if d == 0 {
        '0'
    } else if d == 1 {
        '1'
    } else if d == 2 {
        '2'
    } else if d == 3 {
        '3'
    } else if d == 4 {
        '4'
    } else if d == 5 {
        '5'
    } else if d == 6 {
        '6'
    } else if d == 7 {
        '7'
    } else if d == 8 {
        '8'
    } else {
        '9'
    }
}

/// `n` written in decimal.
pub fn decimal(n: usize) -> (r: String)
    ensures
        r@ == decimal_text(n as nat),
    decreases n,
{
    if n < 10 {
        let mut s = String::new();
        push_char(&mut s, digit(n));
        assert(s@ =~= seq![digit_char(n as nat)]);
        s
    } else {
        let mut s = decimal(n / 10);
        push_char(&mut s, digit(n % 10));
        s
    }
}

pub open spec fn command_type_of(c: CommandModel) -> Seq<char> {
    match c {
        CommandModel::Raw(_) => "raw"@,
        CommandModel::LocalFile { .. } => "script"@,
        CommandModel::Directory => "directory"@,
    }
}

/// A raw command is kept as it is; a script is `executable|args|path`, its arguments
/// separated by spaces; a directory has no content.
pub open spec fn command_content_of(c: CommandModel) -> Seq<char> {
    match c {
        CommandModel::Raw(cmd) => cmd,
        CommandModel::LocalFile { executable, args, source_path } => executable + "|"@ + joined(
            args,
            " "@,
        ) + "|"@ + source_path,
        CommandModel::Directory => Seq::empty(),
    }
}

/// `e` writes out node `node`, whose index is `id`.
pub open spec fn entry_of(e: EntryInfo, node: CatalogNode, id: nat) -> bool {
    &&& e.name@ == node.name@
    &&& e.description@ == node.description@
    &&& e.command_type@ == command_type_of(node.command@)
    &&& e.command_content@ == command_content_of(node.command@)
    &&& e.task_list@ == node.task_list@
    &&& e.multi_select == node.multi_select
    &&& e.has_children == node.has_children()
    &&& e.id@ == decimal_text(id)
}

/// `t` writes out category `c`.
pub open spec fn tab_of(t: TabInfo, c: Category) -> bool {
    &&& t.name@ == c.name@
    &&& t.entries@.len() + 1 == c.nodes@.len()
    &&& forall|k: int|
        0 <= k < t.entries@.len() ==> entry_of(
            #[trigger] t.entries@[k],
            c.nodes@[k + 1],
            (k + 1) as nat,
        )
}

fn command_fields(c: &CommandSpec) -> (r: (String, String))
    ensures
        r.0@ == command_type_of(c@),
        r.1@ == command_content_of(c@),
{
    match c {
        CommandSpec::Raw(cmd) => ("raw".to_string(), cmd.clone()),
        CommandSpec::LocalFile { executable, args, source_path } => {
            let mut content = executable.clone();
            content.append("|");
            let joined_args = join_strings(args, " ");
            content.append(joined_args.as_str());
            content.append("|");
            content.append(source_path.as_str());
            proof {
                assert(args@.map_values(|s: String| s@) == strings_view(args@));
            }
            ("script".to_string(), content)
        },
        CommandSpec::Directory => ("directory".to_string(), String::new()),
    }
}

/// Writes out one node, whose index is `id`.
pub fn entry_info(node: &CatalogNode, id: usize) -> (r: EntryInfo)
    ensures
        entry_of(r, *node, id as nat),
{
    let (command_type, command_content) = command_fields(&node.command);
    EntryInfo {
        name: node.name.clone(),
        description: node.description.clone(),
        command_type,
        command_content,
        task_list: node.task_list.clone(),
        multi_select: node.multi_select,
        has_children: node.children.len() > 0,
        id: decimal(id),
    }
}

impl Category {
    /// This category written out flat, without its root.
    pub fn tab_info(&self) -> (r: TabInfo)
        requires
            self.wf(),
        ensures
            tab_of(r, *self),
    {
        let mut entries: Vec<EntryInfo> = Vec::new();
        let mut i: usize = 1;
        while i < self.nodes.len()
            invariant
                self.wf(),
                1 <= i <= self.nodes@.len(),
                entries@.len() + 1 == i,
                forall|k: int|
                    0 <= k < entries@.len() ==> entry_of(
                        #[trigger] entries@[k],
                        self.nodes@[k + 1],
                        (k + 1) as nat,
                    ),
            decreases self.nodes@.len() - i,
        {
            entries.push(entry_info(&self.nodes[i], i));
            i = i + 1;
        }
        TabInfo { name: self.name.clone(), entries }
    }
}

impl Catalog {
    /// Every category written out flat, in catalog order.
    pub fn tab_infos(&self) -> (r: Vec<TabInfo>)
        ensures
            r@.len() == self@.len(),
            forall|k: int| 0 <= k < r@.len() ==> tab_of(#[trigger] r@[k], self@[k]),
    {
        let cats = self.categories();
        let mut r: Vec<TabInfo> = Vec::new();
        let mut k: usize = 0;
        while k < cats.len()
            invariant
                cats@ == self@,
                crate::catalog::catalog_wf(self@),
                k <= cats@.len(),
                r@.len() == k,
                forall|a: int| 0 <= a < k ==> tab_of(#[trigger] r@[a], self@[a]),
            decreases cats@.len() - k,
        {
            assert(cats@[k as int].wf());
            r.push(cats[k].tab_info());
            k = k + 1;
        }
        r
    }
}

/// Why a flat entry could not be run or shown.
#[derive(Clone, Copy, Debug, PartialEq, Eq, Structural)]
pub enum EntryError {
    NotFound,
    NotExecutable,
    InvalidScriptFormat,
    UnknownCommandType,
}

impl EntryError {
    pub fn message(&self) -> (r: &'static str)
        ensures
            *self == EntryError::NotFound ==> r@ == "Command not found"@,
            *self == EntryError::NotExecutable ==> r@ == "Cannot execute directory"@,
            *self == EntryError::InvalidScriptFormat ==> r@ == "Invalid script command format"@,
            *self == EntryError::UnknownCommandType ==> r@ == "Unknown command type"@,
    {
        match self {
            EntryError::NotFound => "Command not found",
            EntryError::NotExecutable => "Cannot execute directory",
            EntryError::InvalidScriptFormat => "Invalid script command format",
            EntryError::UnknownCommandType => "Unknown command type",
        }
    }
}

/// What a flat entry says to run.
pub enum EntryCommand {
    Raw(String),
    Script { executable: String, args: Vec<String> },
}

pub enum EntryCommandModel {
    Raw(Seq<char>),
    Script { executable: Seq<char>, args: Seq<Seq<char>> },
}

impl View for EntryCommand {
    type V = EntryCommandModel;

    open spec fn view(&self) -> EntryCommandModel {
        match self {
            EntryCommand::Raw(c) => EntryCommandModel::Raw(c@),
            EntryCommand::Script { executable, args } => EntryCommandModel::Script {
                executable: executable@,
                args: strings_view(args@),
            },
        }
    }
}

/// The arguments written in the second piece of a script's content: none when it is
/// empty, else its words.
pub open spec fn script_args(piece: Seq<char>) -> Seq<Seq<char>> {
    if piece.len() == 0 {
        Seq::empty()
    } else {
        words_of(piece)
    }
}

/// What an entry says to run, decoded from its type and content.
pub open spec fn entry_command_of(e: EntryInfo) -> Result<EntryCommandModel, EntryError> {
    if e.command_type@ == "raw"@ {
        Ok(EntryCommandModel::Raw(e.command_content@))
    } else if e.command_type@ == "script"@ {
        let parts = split_on(e.command_content@, '|');
        if parts.len() >= 2 {
            Ok(EntryCommandModel::Script { executable: parts[0], args: script_args(parts[1]) })
        } else {
            Err(EntryError::InvalidScriptFormat)
        }
    } else if e.command_type@ == "directory"@ {
        Err(EntryError::NotExecutable)
    } else {
        Err(EntryError::UnknownCommandType)
    }
}

/// A preview's head followed by the entry's description.
pub open spec fn with_description(head: Seq<char>, description: Seq<char>) -> Seq<char> {
    head + "\n\nDescription:\n"@ + description
}

/// The preview of a flat entry.
pub open spec fn entry_preview_of(e: EntryInfo, source: Option<Seq<char>>) -> Result<Seq<char>, EntryError> {
    if e.command_type@ == "raw"@ {
        Ok(with_description("Raw Command:\n"@ + e.command_content@, e.description@))
    } else if e.command_type@ == "script"@ {
        let parts = split_on(e.command_content@, '|');
        if parts.len() >= 3 {
            Ok(with_description("Script Preview:\n"@ + script_text(source, parts[2]), e.description@))
        } else if parts.len() == 2 {
            Ok(with_description("Script Command: "@ + parts[0] + " "@ + parts[1], e.description@))
        } else {
            Ok(with_description("Script Command: "@ + parts[0] + " "@, e.description@))
        }
    } else if e.command_type@ == "directory"@ {
        Ok(with_description("Directory: "@ + e.name@, e.description@))
    } else {
        Err(EntryError::UnknownCommandType)
    }
}

/// Entry `i` of tab `k` is named `entry` in a tab named `tab`.
pub open spec fn entry_at(tabs: Seq<TabInfo>, k: int, i: int, tab: Seq<char>, entry: Seq<char>) -> bool {
    &&& 0 <= k < tabs.len()
    &&& 0 <= i < tabs[k].entries@.len()
    &&& tabs[k].name@ == tab
    &&& tabs[k].entries@[i].name@ == entry
}

/// The first entry named `entry` in a tab named `tab`, tabs in order and entries in
/// order within a tab.
pub fn find_entry(tabs: &Vec<TabInfo>, tab: &str, entry: &str) -> (r: Option<(usize, usize)>)
    ensures
        r matches Some((k, i)) ==> entry_at(tabs@, k as int, i as int, tab@, entry@) && forall|
            a: int,
            b: int,
        | (a < k || (a == k && b < i)) ==> !entry_at(tabs@, a, b, tab@, entry@),
        r is None ==> forall|a: int, b: int| !entry_at(tabs@, a, b, tab@, entry@),
{
    let tab_name = tab.to_string();
    let entry_name = entry.to_string();
    let mut k: usize = 0;
    while k < tabs.len()
        invariant
            tab_name@ == tab@,
            entry_name@ == entry@,
            k <= tabs@.len(),
            forall|a: int, b: int| a < k ==> !entry_at(tabs@, a, b, tab@, entry@),
        decreases tabs@.len() - k,
    {
        if tabs[k].name == tab_name {
            let entries = &tabs[k].entries;
            let mut i: usize = 0;
            while i < entries.len()
                invariant
                    tab_name@ == tab@,
                    entry_name@ == entry@,
                    k < tabs@.len(),
                    tabs@[k as int].name@ == tab@,
                    entries == &tabs@[k as int].entries,
                    i <= entries@.len(),
                    forall|a: int, b: int| a < k ==> !entry_at(tabs@, a, b, tab@, entry@),
                    forall|b: int| b < i ==> !entry_at(tabs@, k as int, b, tab@, entry@),
                decreases entries@.len() - i,
            {
                if entries[i].name == entry_name {
                    return Some((k, i));
                }
                i = i + 1;
            }
        }
        k = k + 1;
    }
    None
}

/// Decodes what an entry says to run.
pub fn entry_command(e: &EntryInfo) -> (r: Result<EntryCommand, EntryError>)
    ensures
        command_matches(r, entry_command_of(*e)),
{
    if e.command_type == "raw".to_string() {
        Ok(EntryCommand::Raw(e.command_content.clone()))
    } else if e.command_type == "script".to_string() {
        let parts = split_text(e.command_content.as_str(), '|');
        proof {
            assert(parts@.map_values(|p: String| p@).len() == parts@.len());
        }
        if parts.len() >= 2 {
            let args = if parts[1].as_str().unicode_len() == 0 {
                Vec::new()
            } else {
                whitespace_words(parts[1].as_str())
            };
            proof {
                assert(parts@.map_values(|p: String| p@)[1] == parts@[1]@);
                assert(parts@.map_values(|p: String| p@)[0] == parts@[0]@);
                assert(args@.map_values(|w: String| w@) == strings_view(args@));
                if parts@[1]@.len() == 0 {
                    assert(strings_view(args@) =~= Seq::<Seq<char>>::empty());
                }
            }
            Ok(EntryCommand::Script { executable: parts[0].clone(), args })
        } else {
            Err(EntryError::InvalidScriptFormat)
        }
    } else if e.command_type == "directory".to_string() {
        Err(EntryError::NotExecutable)
    } else {
        Err(EntryError::UnknownCommandType)
    }
}

/// The script file a flat script entry names, if it names one.
pub open spec fn entry_script_path_of(e: EntryInfo) -> Option<Seq<char>> {
    let parts = split_on(e.command_content@, '|');
    if e.command_type@ == "script"@ && parts.len() >= 3 {
        Some(parts[2])
    } else {
        None
    }
}

/// The script file a flat script entry names, so that its source can be read.
pub fn entry_script_path(e: &EntryInfo) -> (r: Option<String>)
    ensures
        r matches Some(p) ==> entry_script_path_of(*e) == Some(p@),
        r is None ==> entry_script_path_of(*e) is None,
{
    if e.command_type == "script".to_string() {
        let parts = split_text(e.command_content.as_str(), '|');
        if parts.len() >= 3 {
            proof {
                assert(parts@.map_values(|p: String| p@)[2] == parts@[2]@);
            }
            return Some(parts[2].clone());
        }
        proof {
            assert(parts@.map_values(|p: String| p@).len() == parts@.len());
        }
    }
    None
}

/// Renders an entry's preview; `source` is the script's text for a script entry, or
/// `None` when it could not be read.
pub fn entry_preview(e: &EntryInfo, source: Option<&str>) -> (r: Result<String, EntryError>)
    ensures
        preview_matches(r, entry_preview_of(*e, option_view(source))),
{
    let mut out = if e.command_type == "raw".to_string() {
        let mut t = "Raw Command:\n".to_string();
        t.append(e.command_content.as_str());
        t
    } else if e.command_type == "script".to_string() {
        let parts = split_text(e.command_content.as_str(), '|');
        proof {
            assert(parts@.map_values(|p: String| p@).len() == parts@.len());
            assert(forall|j: int| 0 <= j < parts@.len() ==> parts@.map_values(|p: String| p@)[j] == parts@[j]@);
        }
        if parts.len() >= 3 {
            let mut t = "Script Preview:\n".to_string();
            match source {
                Some(text) => t.append(text),
                None => {
                    let ghost start = t@;
                    t.append("Could not read script file: ");
                    t.append(parts[2].as_str());
                    assert(t@ =~= start + ("Could not read script file: "@ + parts@[2]@));
                },
            }
            t
        } else {
            let mut t = "Script Command: ".to_string();
            t.append(parts[0].as_str());
            t.append(" ");
            if parts.len() >= 2 {
                t.append(parts[1].as_str());
            }
            t
        }
    } else if e.command_type == "directory".to_string() {
        let mut t = "Directory: ".to_string();
        t.append(e.name.as_str());
        t
    } else {
        return Err(EntryError::UnknownCommandType);
    };
    out.append("\n\nDescription:\n");
    out.append(e.description.as_str());
    Ok(out)
}

/// Entry `i` of tab `k` is the first entry named `entry` in a tab named `tab`.
pub open spec fn first_entry_at(tabs: Seq<TabInfo>, k: int, i: int, tab: Seq<char>, entry: Seq<char>) -> bool {
    &&& entry_at(tabs, k, i, tab, entry)
    &&& forall|a: int, b: int| (a < k || (a == k && b < i)) ==> !entry_at(tabs, a, b, tab, entry)
}

pub open spec fn command_matches(r: Result<EntryCommand, EntryError>, m: Result<EntryCommandModel, EntryError>) -> bool {
    match r {
        Ok(c) => m == Ok::<EntryCommandModel, EntryError>(c@),
        Err(err) => m == Err::<EntryCommandModel, EntryError>(err),
    }
}

pub open spec fn preview_matches(r: Result<String, EntryError>, m: Result<Seq<char>, EntryError>) -> bool {
    match r {
        Ok(t) => m == Ok::<Seq<char>, EntryError>(t@),
        Err(err) => m == Err::<Seq<char>, EntryError>(err),
    }
}

/// Decodes what the entry named `entry` in the tab named `tab` says to run.
pub fn resolve_entry_command(tabs: &Vec<TabInfo>, tab: &str, entry: &str) -> (r: Result<
    EntryCommand,
    EntryError,
>)
    ensures
        (forall|a: int, b: int| !entry_at(tabs@, a, b, tab@, entry@)) ==> r == Err::<
            EntryCommand,
            EntryError,
        >(EntryError::NotFound),
        (exists|a: int, b: int| entry_at(tabs@, a, b, tab@, entry@)) ==> exists|k: int, i: int|
            first_entry_at(tabs@, k, i, tab@, entry@) && command_matches(
                r,
                entry_command_of(tabs@[k].entries@[i]),
            ),
{
    match find_entry(tabs, tab, entry) {
        None => Err(EntryError::NotFound),
        Some((k, i)) => {
            let r = entry_command(&tabs[k].entries[i]);
            assert(first_entry_at(tabs@, k as int, i as int, tab@, entry@));
            r
        },
    }
}

/// Renders the preview of the entry named `entry` in the tab named `tab`; `source` is
/// the script's text for a script entry, or `None` when it could not be read.
pub fn resolve_entry_preview(tabs: &Vec<TabInfo>, tab: &str, entry: &str, source: Option<&str>) -> (r: Result<
    String,
    EntryError,
>)
    ensures
        (forall|a: int, b: int| !entry_at(tabs@, a, b, tab@, entry@)) ==> r == Err::<
            String,
            EntryError,
        >(EntryError::NotFound),
        (exists|a: int, b: int| entry_at(tabs@, a, b, tab@, entry@)) ==> exists|k: int, i: int|
            first_entry_at(tabs@, k, i, tab@, entry@) && preview_matches(
                r,
                entry_preview_of(tabs@[k].entries@[i], option_view(source)),
            ),
{
    match find_entry(tabs, tab, entry) {
        None => Err(EntryError::NotFound),
        Some((k, i)) => {
            let r = entry_preview(&tabs[k].entries[i], source);
            assert(first_entry_at(tabs@, k as int, i as int, tab@, entry@));
            r
        },
    }
}

} // verus!
