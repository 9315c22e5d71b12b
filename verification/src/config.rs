//! Where a coding standard comes from: configuration files and settings.
use crate::text;
use crate::tools;
use vstd::prelude::*;
use vstd::string::*;

verus! {

/// The names of configuration files, the one that counts most first.
pub open spec fn config_names() -> Seq<Seq<char>> {
    seq![".phpcs.xml"@, "phpcs.xml"@, ".phpcs.xml.dist"@, "phpcs.xml.dist"@]
}

/// The names of configuration files, the one that counts most first.
pub fn config_file_names() -> (r: Vec<String>)
    ensures
        text::texts(r@) == config_names(),
{
    let mut names: Vec<String> = Vec::new();
    names.push(".phpcs.xml".to_string());
    names.push("phpcs.xml".to_string());
    names.push(".phpcs.xml.dist".to_string());
    names.push("phpcs.xml.dist".to_string());
    assert(text::texts(names@) =~= config_names());
    names
}

/// What optional strings hold.
pub open spec fn optional_texts(v: Seq<Option<String>>) -> Seq<Option<Seq<char>>> {
    v.map_values(|s: Option<String>| text::optional_string(s))
}

/// The first path in a list of those that were looked up, in which a file that is not there has
/// none.
pub open spec fn first_found(paths: Seq<Option<Seq<char>>>) -> Option<Seq<char>>
    decreases paths.len(),
{
    if paths.len() == 0 {
        None
    } else if paths[0] is Some {
        paths[0]
    } else {
        first_found(paths.drop_first())
    }
}

/// The configuration file to use, given the path of each of those that are there, in the order of
/// their names.
pub fn find_config(paths: &Vec<Option<String>>) -> (r: Option<String>)
    ensures
        text::optional_string(r) == first_found(optional_texts(paths@)),
{
    let ghost all = optional_texts(paths@);
    let mut i: usize = 0;
    assert(all.skip(0) =~= all);
    while i < paths.len()
        invariant
            i <= paths@.len(),
            all == optional_texts(paths@),
            first_found(all.skip(i as int)) == first_found(all),
        decreases paths@.len() - i,
    {
        assert(all.skip(i as int)[0] == text::optional_string(paths@[i as int]));
        assert(all.skip(i as int).drop_first() =~= all.skip(i + 1));
        if let Some(path) = &paths[i] {
            return Some(path.clone());
        }
        i += 1;
    }
    None
}

/// Of the configuration files that are there, the one whose name comes first is used; where there
/// is none, none is used.
pub proof fn law_first_config_wins(paths: Seq<Option<Seq<char>>>)
    ensures
        match first_found(paths) {
            Some(path) => exists|i: int|
                {
                    &&& 0 <= i < paths.len()
                    &&& #[trigger] paths[i] == Some(path)
                    &&& forall|j: int| 0 <= j < i ==> (#[trigger] paths[j]) is None
                },
            None => forall|j: int| 0 <= j < paths.len() ==> (#[trigger] paths[j]) is None,
        },
    decreases paths.len(),
{
    if paths.len() > 0 {
        if paths[0] is Some {
            assert(paths[0] == first_found(paths));
        } else {
            let rest = paths.drop_first();
            law_first_config_wins(rest);
            assert(forall|j: int| 0 < j < paths.len() ==> #[trigger] paths[j] == rest[j - 1]);
            if let Some(path) = first_found(rest) {
                let i = choose|i: int|
                    {
                        &&& 0 <= i < rest.len()
                        &&& #[trigger] rest[i] == Some(path)
                        &&& forall|j: int| 0 <= j < i ==> (#[trigger] rest[j]) is None
                    };
                assert(paths[i + 1] == Some(path));
            }
        }
    }
}

/// Whether a path is that of the given name in a folder. A folder may be written with a separator at
/// its end.
pub open spec fn stands_in(path: Seq<char>, folder: Seq<char>, name: Seq<char>) -> bool {
    ||| path == folder + "/"@ + name
    ||| path == folder + "\\"@ + name
    ||| path == folder + name && folder.len() > 0 && tools::separator(folder.last())
}

/// Whether a coding standard is a configuration file of the project in a folder.
pub open spec fn project_config(root: Option<Seq<char>>, standard: Seq<char>) -> bool {
    root matches Some(folder) && {
        ||| stands_in(standard, folder, ".phpcs.xml"@)
        ||| stands_in(standard, folder, "phpcs.xml"@)
        ||| stands_in(standard, folder, ".phpcs.xml.dist"@)
        ||| stands_in(standard, folder, "phpcs.xml.dist"@)
    }
}

fn is_in(path: &str, folder: &str, name: &str) -> (r: bool)
    ensures
        r == stands_in(path@, folder@, name@),
{
    let letters: Vec<char> = text::chars_of(folder);
    let ends_apart: bool = letters.len() > 0 && (letters[letters.len() - 1] == '/' || letters[
    letters.len() - 1] == '\\');
    text::same_text(path, &folder.to_string().concat("/").concat(name)) || text::same_text(
        path,
        &folder.to_string().concat("\\").concat(name),
    ) || (ends_apart && text::same_text(path, &folder.to_string().concat(name)))
}

/// Whether a coding standard is a configuration file of the project in a folder.
pub fn is_project_config(root: Option<&str>, standard: &str) -> (r: bool)
    ensures
        r == project_config(text::optional(root), standard@),
{
    match root {
        Some(folder) => is_in(standard, folder, ".phpcs.xml") || is_in(
            standard,
            folder,
            "phpcs.xml",
        ) || is_in(standard, folder, ".phpcs.xml.dist") || is_in(
            standard,
            folder,
            "phpcs.xml.dist",
        ),
        None => false,
    }
}

/// Where a path stands last in a list of those that were looked up; -1 where it does not.
pub open spec fn last_position(paths: Seq<Option<Seq<char>>>, path: Seq<char>) -> int
    decreases paths.len(),
{
    if paths.len() == 0 {
        -1
    } else if paths.last() == Some(path) {
        paths.len() - 1
    } else {
        last_position(paths.drop_last(), path)
    }
}

/// What to use in place of a coding standard that does not work: the first configuration file that
/// is there of those that count less.
pub open spec fn fallback(paths: Seq<Option<Seq<char>>>, failed: Seq<char>) -> Option<Seq<char>> {
    first_found(paths.skip(last_position(paths, failed) + 1))
}

proof fn lemma_last_position(paths: Seq<Option<Seq<char>>>, path: Seq<char>)
    ensures
        -1 <= last_position(paths, path) < paths.len(),
        last_position(paths, path) >= 0 ==> paths[last_position(paths, path)] == Some(path),
        forall|i: int| last_position(paths, path) < i < paths.len() ==> #[trigger] paths[i] != Some(
            path,
        ),
    decreases paths.len(),
{
    if paths.len() > 0 && paths.last() != Some(path) {
        let front = paths.drop_last();
        lemma_last_position(front, path);
        assert(forall|i: int| 0 <= i < front.len() ==> front[i] == #[trigger] paths[i]);
    }
}

/// What to use in place of a coding standard that does not work.
pub fn find_fallback(paths: &Vec<Option<String>>, failed: &str) -> (r: Option<String>)
    ensures
        text::optional_string(r) == fallback(optional_texts(paths@), failed@),
{
    let ghost all = optional_texts(paths@);
    let mut rest: Vec<Option<String>> = Vec::new();
    let mut i: usize = 0;
    assert(optional_texts(rest@) =~= all.take(0).skip(last_position(all.take(0), failed@) + 1));
    while i < paths.len()
        invariant
            i <= paths@.len(),
            all == optional_texts(paths@),
            optional_texts(rest@) == all.take(i as int).skip(
                last_position(all.take(i as int), failed@) + 1,
            ),
        decreases paths@.len() - i,
    {
        let ghost before = rest@;
        let ghost now = all.take(i as int);
        let ghost next = all.take(i + 1);
        assert(next.drop_last() =~= now);
        assert(next.last() == text::optional_string(paths@[i as int]));
        proof {
            lemma_last_position(now, failed@);
        }
        let is_failed: bool = match &paths[i] {
            Some(path) => text::same_text(path, failed),
            None => false,
        };
        if is_failed {
            rest = Vec::new();
            assert(optional_texts(rest@) =~= next.skip(last_position(next, failed@) + 1));
        } else {
            let copy: Option<String> = text::copy_optional(&paths[i]);
            let ghost last = text::optional_string(copy);
            rest.push(copy);
            assert(optional_texts(rest@) =~= optional_texts(before).push(last));
            assert(last_position(next, failed@) == last_position(now, failed@));
            assert(next =~= now.push(last));
            assert(next.skip(last_position(next, failed@) + 1) =~= now.skip(
                last_position(now, failed@) + 1,
            ).push(last));
        }
        i += 1;
    }
    assert(all.take(i as int) =~= all);
    find_config(&rest)
}

/// What is used in place of a coding standard that does not work is another one that counts less, so
/// that one after the other comes to an end.
pub proof fn law_fallback_counts_less(paths: Seq<Option<Seq<char>>>, failed: Seq<char>)
    ensures
        fallback(paths, failed) matches Some(path) ==> path != failed && last_position(
            paths,
            failed,
        ) < last_position(paths, path) < paths.len(),
{
    lemma_last_position(paths, failed);
    let at = last_position(paths, failed) + 1;
    let rest = paths.skip(at);
    law_first_config_wins(rest);
    if let Some(path) = fallback(paths, failed) {
        lemma_last_position(paths, path);
        let i = choose|i: int| 0 <= i < rest.len() && #[trigger] rest[i] == Some(path);
        assert(paths[at + i] == Some(path));
    }
}

/// Which folder the server works in once folders were removed and added: the one it worked in, unless
/// it was removed; otherwise the first that was added.
pub open spec fn next_root(
    root: Option<Seq<char>>,
    removed: Seq<Seq<char>>,
    added: Seq<Seq<char>>,
) -> Option<Seq<char>> {
    if root is Some && !removed.contains(root->0) {
        root
    } else if added.len() > 0 {
        Some(added[0])
    } else {
        None
    }
}

/// Which folder the server works in once folders were removed and added.
pub fn choose_root(root: Option<&str>, removed: &Vec<String>, added: &Vec<String>) -> (r: Option<
    String,
>)
    ensures
        text::optional_string(r) == next_root(
            text::optional(root),
            text::texts(removed@),
            text::texts(added@),
        ),
{
    if let Some(folder) = root {
        if !text::contains_string(removed, folder) {
            return Some(folder.to_string());
        }
    }
    if added.len() > 0 {
        assert(text::texts(added@)[0] == added@[0]@);
        Some(added[0].clone())
    } else {
        None
    }
}

/// A project that is switched is left: the server works in a folder that was not removed, and in the
/// new one where the old one was.
pub proof fn law_switch_leaves_the_old_root(
    root: Seq<char>,
    removed: Seq<Seq<char>>,
    added: Seq<Seq<char>>,
)
    ensures
        removed.contains(root) && added.len() > 0 ==> next_root(Some(root), removed, added) == Some(
            added[0],
        ),
        removed.contains(root) && added.len() == 0 ==> next_root(Some(root), removed, added) is None,
        !removed.contains(root) ==> next_root(Some(root), removed, added) == Some(root),
{
}

/// The configuration files of a project are these four, in this order.
pub proof fn law_config_files_in_order()
    ensures
        config_names().len() == 4,
        config_names()[0] == ".phpcs.xml"@,
        config_names()[1] == "phpcs.xml"@,
        config_names()[2] == ".phpcs.xml.dist"@,
        config_names()[3] == "phpcs.xml.dist"@,
{
}

/// Every configuration file in the folder of the project is the project's, and nothing outside the
/// folder is.
pub proof fn law_project_config_lies_in_the_folder(
    folder: Seq<char>,
    i: int,
    standard: Seq<char>,
)
    requires
        0 <= i < config_names().len(),
    ensures
        project_config(Some(folder), folder + "/"@ + config_names()[i]),
        project_config(Some(folder), folder + "\\"@ + config_names()[i]),
        project_config(Some(folder), standard) ==> standard.len() > folder.len() && standard.take(
            folder.len() as int,
        ) == folder && exists|k: int|
            0 <= k < config_names().len() && standard.len() >= (#[trigger] config_names()[k]).len()
                && standard.skip(standard.len() - config_names()[k].len()) == config_names()[k],
        !project_config(None, standard),
{
    reveal_strlit("/");
    reveal_strlit("\\");
    reveal_strlit(".phpcs.xml");
    reveal_strlit("phpcs.xml");
    reveal_strlit(".phpcs.xml.dist");
    reveal_strlit("phpcs.xml.dist");
    let names = config_names();
    if project_config(Some(folder), standard) {
        let k: int = if stands_in(standard, folder, names[0]) {
            0
        } else if stands_in(standard, folder, names[1]) {
            1
        } else if stands_in(standard, folder, names[2]) {
            2
        } else {
            3
        };
        assert(stands_in(standard, folder, names[k]));
        assert(standard.take(folder.len() as int) =~= folder);
        assert(standard.skip(standard.len() - names[k].len()) =~= names[k]);
    }
}

/// In place of a coding standard that does not work, the first configuration file is used that stands
/// behind it in the order of their names; where it is none of them, the first of all. Where there is
/// none, none is used.
pub proof fn law_fallback_is_the_next_one(
    paths: Seq<Option<Seq<char>>>,
    failed: Seq<char>,
    i: int,
)
    requires
        0 <= i < paths.len(),
        paths[i] is Some,
        forall|j: int| i <= j < paths.len() ==> #[trigger] paths[j] != Some(failed),
    ensures
        fallback(paths, failed) is Some,
        !paths.contains(Some(failed)) ==> fallback(paths, failed) == first_found(paths),
{
    lemma_last_position(paths, failed);
    let at = last_position(paths, failed) + 1;
    let rest = paths.skip(at);
    law_first_config_wins(rest);
    if at > i {
        assert(paths[at - 1] == Some(failed));
    }
    assert(rest[i - at] == paths[i]);
    if !paths.contains(Some(failed)) {
        if at > 0 {
            assert(paths.contains(paths[at - 1]));
        }
        assert(rest =~= paths);
    }
}

/// A path is that of a configuration file of the project only where it is the folder, one separator
/// and one of the four names, and nothing else: the separator may stand at the end of the folder.
pub proof fn law_project_config_lies_directly_in_the_folder(folder: Seq<char>, standard: Seq<char>)
    ensures
        project_config(Some(folder), standard) <==> exists|k: int|
            0 <= k < config_names().len() && {
                ||| standard == folder + "/"@ + #[trigger] config_names()[k]
                ||| standard == folder + "\\"@ + config_names()[k]
                ||| folder.len() > 0 && (folder[folder.len() - 1] == '/' || folder[folder.len() - 1]
                    == '\\') && standard == folder + config_names()[k]
            },
{
    let names = config_names();
    assert(names[0] == ".phpcs.xml"@ && names[1] == "phpcs.xml"@ && names[2] == ".phpcs.xml.dist"@
        && names[3] == "phpcs.xml.dist"@);
    if stands_in(standard, folder, names[0]) {
    } else if stands_in(standard, folder, names[1]) {
    } else if stands_in(standard, folder, names[2]) {
    } else if stands_in(standard, folder, names[3]) {
    } else {
        assert forall|k: int| 0 <= k < names.len() implies !stands_in(
            standard,
            folder,
            #[trigger] names[k],
        ) by {
            assert(k == 0 || k == 1 || k == 2 || k == 3);
        }
    }
}

/// A server without a folder takes the first one that is added, and stays without one where none is.
pub proof fn law_first_folder_becomes_the_root(removed: Seq<Seq<char>>, added: Seq<Seq<char>>)
    ensures
        added.len() > 0 ==> next_root(None, removed, added) == Some(added[0]),
        added.len() == 0 ==> next_root(None, removed, added) is None,
{
}

/// What takes the place of a coding standard that does not work is the configuration file that comes
/// next, with none between them that is there.
pub proof fn law_fallback_skips_nothing(
    paths: Seq<Option<Seq<char>>>,
    failed: Seq<char>,
    at: int,
    next: int,
)
    requires
        -1 <= at < next < paths.len(),
        at >= 0 ==> paths[at] == Some(failed),
        paths[next] is Some,
        forall|j: int| at < j < next ==> (#[trigger] paths[j]) is None,
        forall|j: int| next <= j < paths.len() ==> #[trigger] paths[j] != Some(failed),
    ensures
        fallback(paths, failed) == paths[next],
{
    lemma_last_position(paths, failed);
    let last = last_position(paths, failed);
    if last > at {
        assert(paths[last] == Some(failed));
    } else if last < at {
        assert(paths[at] == Some(failed));
    }
    let rest = paths.skip(at + 1);
    law_first_config_wins(rest);
    assert(rest[next - at - 1] == paths[next]);
    if let Some(path) = first_found(rest) {
        let i = choose|i: int|
            {
                &&& 0 <= i < rest.len()
                &&& #[trigger] rest[i] == Some(path)
                &&& forall|j: int| 0 <= j < i ==> (#[trigger] rest[j]) is None
            };
        assert(rest[i] == paths[at + 1 + i]);
    }
}

/// A coding standard behind which no configuration file is there gives way to none.
pub proof fn law_last_standard_has_no_fallback(
    paths: Seq<Option<Seq<char>>>,
    failed: Seq<char>,
    at: int,
)
    requires
        -1 <= at < paths.len(),
        at >= 0 ==> paths[at] == Some(failed),
        forall|j: int| at < j < paths.len() ==> (#[trigger] paths[j]) is None,
    ensures
        fallback(paths, failed) is None,
{
    lemma_last_position(paths, failed);
    let last = last_position(paths, failed);
    if last < at {
        assert(paths[at] == Some(failed));
    }
    let rest = paths.skip(last + 1);
    law_first_config_wins(rest);
    if let Some(path) = first_found(rest) {
        let i = choose|i: int|
            {
                &&& 0 <= i < rest.len()
                &&& #[trigger] rest[i] == Some(path)
                &&& forall|j: int| 0 <= j < i ==> (#[trigger] rest[j]) is None
            };
        assert(rest[i] == paths[last + 1 + i]);
    }
}

} // verus!
