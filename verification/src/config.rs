//! The configuration that the server starts with.

use crate::text::characters;
use vstd::prelude::*;

verus! {

/// The configuration: the directory that the view templates are read from,
/// as an absolute path that ends in a slash.
#[derive(Debug, PartialEq, Eq)]
pub struct Config {
    pub template_dir: String,
}

/// The directory that is configured, or `templates` where none or an empty
/// one is.
pub open spec fn chosen_dir(configured: Option<Seq<char>>) -> Seq<char> {
    match configured {
        Some(dir) => if dir.len() == 0 {
            "templates"@
        } else {
            dir
        },
        None => "templates"@,
    }
}

/// `dir` as an absolute path: itself where it starts with a slash, else
/// below the current directory.
pub open spec fn absolute_dir(dir: Seq<char>, current_dir: Seq<char>) -> Seq<char> {
    if dir.len() > 0 && dir[0] == '/' {
        dir
    } else {
        current_dir + "/"@ + dir
    }
}

/// `dir` with a slash at its end.
pub open spec fn closed_dir(dir: Seq<char>) -> Seq<char> {
    if dir.len() > 0 && dir.last() == '/' {
        dir
    } else {
        dir + "/"@
    }
}

/// The template directory of a configuration file that may name one, for a
/// server started in `current_dir`.
pub open spec fn template_dir(configured: Option<Seq<char>>, current_dir: Seq<char>) -> Seq<char> {
    closed_dir(absolute_dir(chosen_dir(configured), current_dir))
}

impl Config {
    /// The configuration of a server started in `current_dir` whose
    /// configuration file names the template directory `configured`, or
    /// none.
    pub fn new(configured: Option<&str>, current_dir: &str) -> (config: Config)
        ensures
            config.template_dir@ == template_dir(
                match configured {
                    Some(dir) => Some(dir@),
                    None => None,
                },
                current_dir@,
            ),
    {
        let chosen: &str = match configured {
            Some(dir) => if dir.unicode_len() == 0 {
                "templates"
            } else {
                dir
            },
            None => "templates",
        };
        let first = characters(chosen);
        let mut dir = String::new();
        if first.len() > 0 && first[0] == '/' {
            dir.append(chosen);
            assert(dir@ =~= chosen@);
        } else {
            let mut below = String::from_str(current_dir);
            below.append("/");
            below.append(chosen);
            dir.append(below.as_str());
            assert(dir@ =~= current_dir@ + "/"@ + chosen@);
        }
        let all = characters(dir.as_str());
        if !(all.len() > 0 && all[all.len() - 1] == '/') {
            dir.append("/");
        }
        Config { template_dir: dir }
    }

    /// The directory that the view templates are read from.
    pub fn get_template_dir(&self) -> (dir: &str)
        ensures
            dir@ == self.template_dir@,
    {
        self.template_dir.as_str()
    }
}

/// A template directory is never empty and always ends in a slash; one that
/// is configured as an absolute path is taken as it is, but for that slash.
pub proof fn lemma_template_dir(configured: Option<Seq<char>>, current_dir: Seq<char>)
    ensures
        template_dir(configured, current_dir).len() > 0,
        template_dir(configured, current_dir).last() == '/',
        configured is Some && configured->0.len() > 0 && configured->0[0] == '/' ==> template_dir(
            configured,
            current_dir,
        ) == closed_dir(configured->0),
{
    reveal_strlit("/");
    reveal_strlit("templates");
    let dir = absolute_dir(chosen_dir(configured), current_dir);
    assert("/"@.len() == 1);
    assert("/"@[0] == '/');
    assert("templates"@.len() == 9);
}

} // verus!
