//! The token with which a RemoteDesktop portal session is restored.

use vstd::prelude::*;

use crate::text::{
    is_space, is_trimmed, optional_view, to_chars, trim, trimming_is_unique, trims_to,
    whitespace_around_is_taken_away,
};

verus! {

/// A path with one more component, which is relative.
pub open spec fn joined(path: Seq<char>, component: Seq<char>) -> Seq<char> {
    if path.len() == 0 || path.last() == '/' {
        path + component
    } else {
        path + seq!['/'] + component
    }
}

/// Appends a component, which is relative, to a path.
fn join(path: String, component: &str) -> (result: String)
    ensures
        result@ == joined(path@, component@),
{
    let chars = to_chars(path.as_str());
    let mut result = path;
    if chars.len() > 0 && chars[chars.len() - 1] != '/' {
        proof {
            reveal_strlit("/");
        }
        result.append("/");
        assert("/"@ =~= seq!['/']);
    }
    result.append(component);
    result
}

/// The cache directory: `$XDG_CACHE_HOME`, or `.cache` in the home directory, which is
/// the current directory where it is not known.
pub open spec fn cache_dir(
    xdg_cache_home: Option<Seq<char>>,
    home: Option<Seq<char>>,
) -> Seq<char> {
    match (xdg_cache_home, home) {
        (Some(dir), _) => dir,
        (None, Some(home)) => joined(home, ".cache"@),
        (None, None) => joined("."@, ".cache"@),
    }
}

/// The path to the restore token file, given the values of `XDG_CACHE_HOME` and `HOME`.
pub fn get_restore_token_path(xdg_cache_home: Option<String>, home: Option<String>) -> (path:
    String)
    ensures
        path@ == joined(
            joined(
                cache_dir(optional_view(xdg_cache_home), optional_view(home)),
                "schengen"@,
            ),
            "client-restore-token.txt"@,
        ),
{
    let cache_dir = match xdg_cache_home {
        Some(dir) => dir,
        None => {
            let home = match home {
                Some(home) => home,
                None => ".".to_owned(),
            };
            join(home, ".cache")
        },
    };
    join(join(cache_dir, "schengen"), "client-restore-token.txt")
}

/// The restore token in the contents of the restore token file, which are `None` where the
/// file could not be read: what is there without the whitespace around it, if anything.
pub fn read_restore_token(contents: Option<String>) -> (token: Option<String>)
    ensures
        match (contents, token) {
            (None, token) => token is None,
            (Some(contents), Some(token)) => token@.len() > 0 && is_trimmed(contents@, token@),
            (Some(contents), None) => is_trimmed(contents@, Seq::empty()),
        },
{
    match contents {
        Some(contents) => {
            let token = trim(contents.as_str());
            if token.is_empty() {
                assert(token@ =~= Seq::empty());
                None
            } else {
                Some(token.to_owned())
            }
        },
        None => None,
    }
}

/// A token that is written is read again: as long as it has no whitespace around it,
/// nothing but the token itself is what the file holds without surrounding whitespace.
pub proof fn written_token_is_read_again(token: Seq<char>, read: Seq<char>)
    requires
        token.len() > 0,
        !is_space(token[0]),
        !is_space(token.last()),
        is_trimmed(token, read),
    ensures
        read == token,
{
    assert(token.subrange(0, token.len() as int) =~= token);
    assert(trims_to(token, token, 0, token.len() as int));
    trimming_is_unique(token, token, read);
}

/// The restore token file stands in the directory `schengen` of the cache directory, with
/// a slash between two components wherever none is there yet.
pub proof fn restore_token_path_in_full(
    xdg_cache_home: Option<String>,
    home: Option<String>,
    path: String,
)
    requires
        call_ensures(get_restore_token_path, (xdg_cache_home, home), path),
    ensures
        xdg_cache_home matches Some(dir) ==> {
            &&& dir@.len() > 0 && dir@.last() != '/' ==> path@ == dir@ + "/schengen/client-restore-token.txt"@
            &&& dir@.len() == 0 || dir@.last() == '/' ==> path@ == dir@ + "schengen/client-restore-token.txt"@
        },
        xdg_cache_home is None ==> (home matches Some(dir) ==> {
            &&& dir@.len() > 0 && dir@.last() != '/' ==> path@ == dir@ + "/.cache/schengen/client-restore-token.txt"@
            &&& dir@.len() == 0 || dir@.last() == '/' ==> path@ == dir@ + ".cache/schengen/client-restore-token.txt"@
        }),
        xdg_cache_home is None && home is None ==> path@
            == "./.cache/schengen/client-restore-token.txt"@,
{
    reveal_strlit(".");
    reveal_strlit(".cache");
    reveal_strlit("schengen");
    reveal_strlit("client-restore-token.txt");
    reveal_strlit("/schengen/client-restore-token.txt");
    reveal_strlit("schengen/client-restore-token.txt");
    reveal_strlit("/.cache/schengen/client-restore-token.txt");
    reveal_strlit(".cache/schengen/client-restore-token.txt");
    reveal_strlit("./.cache/schengen/client-restore-token.txt");
    match (xdg_cache_home, home) {
        (Some(dir), _) => {
            assert(path@ =~= dir@ + "/schengen/client-restore-token.txt"@ || path@ =~= dir@
                + "schengen/client-restore-token.txt"@);
        },
        (None, Some(dir)) => {
            assert(path@ =~= dir@ + "/.cache/schengen/client-restore-token.txt"@ || path@ =~= dir@
                + ".cache/schengen/client-restore-token.txt"@);
        },
        (None, None) => {
            assert(path@ =~= "./.cache/schengen/client-restore-token.txt"@);
        },
    }
}

/// A token is read whatever whitespace the file has around it, a file with nothing but
/// whitespace has none, and neither has a file that could not be read.
pub proof fn token_is_read_without_whitespace(
    contents: Option<String>,
    before: Seq<char>,
    token: Seq<char>,
    after: Seq<char>,
    read: Option<String>,
)
    requires
        call_ensures(read_restore_token, (contents,), read),
        contents matches Some(text) ==> text@ == before + token + after,
        forall|i: int| 0 <= i < before.len() ==> is_space(#[trigger] before[i]),
        forall|i: int| 0 <= i < after.len() ==> is_space(#[trigger] after[i]),
        token.len() > 0 ==> !is_space(token[0]) && !is_space(token.last()),
    ensures
        contents is None ==> read is None,
        contents is Some && token.len() == 0 ==> read is None,
        contents is Some && token.len() > 0 ==> (read matches Some(text) && text@ == token),
{
    whitespace_around_is_taken_away(before, token, after, Seq::empty());
    if let Some(text) = read {
        whitespace_around_is_taken_away(before, token, after, text@);
    }
}

} // verus!
