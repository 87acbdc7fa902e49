use vstd::prelude::*;
use crate::catalog::{
    first_category_named, strings_view, Catalog, CatalogNode, CommandModel, CommandSpec,
    LookupError,
};
use crate::text::{join_strings, joined};

verus! {

/// What a script preview shows as the script: its source, or a note that it could not
/// be read.
pub open spec fn script_text(source: Option<Seq<char>>, path: Seq<char>) -> Seq<char> {
    match source {
        Some(text) => text,
        None => "Could not read script file: "@ + path,
    }
}

/// The read-only preview of a node: its command or script, and its description.
pub open spec fn preview_of(node: CatalogNode, source: Option<Seq<char>>) -> Seq<char> {
    match node.command@ {
        CommandModel::Raw(cmd) => "Raw Command:\n"@ + cmd + "\n\nDescription:\n"@
            + node.description@,
        CommandModel::LocalFile { executable, args, source_path } => "Script Preview:\n"@
            + script_text(source, source_path) + "\n\nExecution Info:\n"@ + "Executable: "@
            + executable + "\nArguments: "@ + joined(args, " "@) + "\nScript File: "@
            + source_path + "\n\nDescription:\n"@ + node.description@,
        CommandModel::Directory => "Directory: "@ + node.name@ + "\n\nDescription:\n"@
            + node.description@,
    }
}

pub open spec fn option_view(o: Option<&str>) -> Option<Seq<char>> {
    match o {
        Some(s) => Some(s@),
        None => None,
    }
}

/// Renders a node's preview; `source` is the script's text for a script node, or
/// `None` when it could not be read.
pub fn preview_text(node: &CatalogNode, source: Option<&str>) -> (r: String)
    ensures
        r@ == preview_of(*node, option_view(source)),
{
    match &node.command {
        CommandSpec::Raw(cmd) => {
            let mut r = "Raw Command:\n".to_string();
            r.append(cmd.as_str());
            r.append("\n\nDescription:\n");
            r.append(node.description.as_str());
            r
        },
        CommandSpec::LocalFile { executable, args, source_path } => {
            let mut r = "Script Preview:\n".to_string();
            match source {
                Some(text) => r.append(text),
                None => {
                    r.append("Could not read script file: ");
                    r.append(source_path.as_str());
                },
            }
            r.append("\n\nExecution Info:\n");
            r.append("Executable: ");
            r.append(executable.as_str());
            r.append("\nArguments: ");
            let joined_args = join_strings(args, " ");
            r.append(joined_args.as_str());
            r.append("\nScript File: ");
            r.append(source_path.as_str());
            r.append("\n\nDescription:\n");
            r.append(node.description.as_str());
            proof {
                assert(args@.map_values(|s: String| s@) == strings_view(args@));
            }
            r
        },
        CommandSpec::Directory => {
            let mut r = "Directory: ".to_string();
            r.append(node.name.as_str());
            r.append("\n\nDescription:\n");
            r.append(node.description.as_str());
            r
        },
    }
}

impl Catalog {
    /// The preview of the command named `entry` in the category named `category`, as
    /// `locate_command` finds it; `source` is the script's text for a script node, or
    /// `None` when it could not be read.
    pub fn preview_command(&self, category: &str, entry: &str, source: Option<&str>) -> (r: Result<
        String,
        LookupError,
    >)
        ensures
            (forall|a: int| 0 <= a < self@.len() ==> #[trigger] self@[a].name@ != category@) <==> r
                == Err::<String, LookupError>(LookupError::CategoryNotFound),
            r == Err::<String, LookupError>(LookupError::CommandNotFound) ==> exists|k: int|
                first_category_named(self@, k, category@) && forall|j: int|
                    0 <= j < self@[k].nodes@.len() ==> !#[trigger] self@[k].is_leaf_named(j, entry@),
            r matches Ok(text) ==> exists|k: int, i: int|
                first_category_named(self@, k, category@) && 0 <= i < self@[k].nodes@.len()
                    && self@[k].is_leaf_named(i, entry@) && (forall|j: int|
                    0 <= j < i ==> !self@[k].is_leaf_named(j, entry@)) && text@ == preview_of(
                    self@[k].nodes@[i],
                    option_view(source),
                ),
    {
        match self.locate_command(category, entry) {
            Err(e) => Err(e),
            Ok((k, i)) => {
                let text = preview_text(&self.categories()[k].nodes[i], source);
                assert(first_category_named(self@, k as int, category@));
                Ok(text)
            },
        }
    }
}

} // verus!
