//! Launch at login: what the switch reports, and which running copies may register
//! themselves. The registration itself (SMAppService, the autostart plugin) runs in the
//! shell.

use crate::text::{chars_of, to_owned};
use vstd::prelude::*;

verus! {

#[derive(Clone, Copy, Debug, PartialEq, Eq, Structural)]
pub enum AutostartStatus {
    Enabled,
    Disabled,
    /// The user switched the item off in System Settings; only they can turn it back on.
    RequiresApproval,
}

pub fn status_of(enabled: bool) -> (r: AutostartStatus)
    ensures
        r == (if enabled {
            AutostartStatus::Enabled
        } else {
            AutostartStatus::Disabled
        }),
{
    if enabled {
        AutostartStatus::Enabled
    } else {
        AutostartStatus::Disabled
    }
}

/// Whether a piece of a path between separators names something: not empty, not `.`.
pub open spec fn names_something(piece: Seq<char>) -> bool {
    piece.len() > 0 && piece != seq!['.']
}

/// The named pieces of the first `k` characters of a path, and the piece still open.
pub open spec fn split_prefix(path: Seq<char>, k: nat) -> (Seq<Seq<char>>, Seq<char>)
    decreases k,
{
    if k == 0 {
        (Seq::empty(), Seq::empty())
    } else {
        let (done, open) = split_prefix(path, (k - 1) as nat);
        let c = path[k - 1];
        if c == '/' {
            (if names_something(open) { done.push(open) } else { done }, Seq::empty())
        } else {
            (done, open.push(c))
        }
    }
}

/// The named components of a path: what lies between separators, without the empty and
/// `.` ones.
pub open spec fn named_components(path: Seq<char>) -> Seq<Seq<char>> {
    let (done, open) = split_prefix(path, path.len());
    if names_something(open) {
        done.push(open)
    } else {
        done
    }
}

/// A file name whose extension, what follows its last dot when that dot is not its first
/// character, is `app`.
pub open spec fn has_app_extension(name: Seq<char>) -> bool {
    name.len() >= 5 && name.skip(name.len() - 4) == ".app"@
}

/// A copy launched from inside an app bundle, `<name>.app/Contents/MacOS/<binary>`: the
/// fourth named component from the end is the bundle.
pub open spec fn spec_is_bundled(path: Seq<char>) -> bool {
    let names = named_components(path);
    names.len() >= 4 && has_app_extension(names[names.len() - 4])
}

pub open spec fn char_views(v: Seq<Vec<char>>) -> Seq<Seq<char>> {
    v.map_values(|x: Vec<char>| x@)
}

fn names_piece(piece: &Vec<char>) -> (r: bool)
    ensures
        r == names_something(piece@),
{
    let r = piece.len() > 0 && !(piece.len() == 1 && piece[0] == '.');
    proof {
        if piece@.len() == 1 && piece@[0] == '.' {
            assert(piece@ =~= seq!['.']);
        }
        if piece@ == seq!['.'] {
            assert(piece@[0] == '.');
        }
    }
    r
}

/// Splits a path into its named components.
fn split_components(path: &str) -> (r: Vec<Vec<char>>)
    ensures
        char_views(r@) == named_components(path@),
{
    let chars = chars_of(path);
    let mut out: Vec<Vec<char>> = Vec::new();
    let mut current: Vec<char> = Vec::new();
    let mut i: usize = 0;
    proof {
        assert(char_views(out@) =~= Seq::<Seq<char>>::empty());
    }
    while i < chars.len()
        invariant
            0 <= i <= chars@.len(),
            chars@ == path@,
            (char_views(out@), current@) == split_prefix(path@, i as nat),
        decreases chars@.len() - i,
    {
        let c = chars[i];
        if c == '/' {
            if names_piece(&current) {
                let ghost before = char_views(out@);
                let ghost piece = current@;
                out.push(current);
                proof {
                    assert(char_views(out@) =~= before.push(piece));
                }
            }
            current = Vec::new();
        } else {
            current.push(c);
        }
        i = i + 1;
    }
    if names_piece(&current) {
        let ghost before = char_views(out@);
        let ghost piece = current@;
        out.push(current);
        proof {
            assert(char_views(out@) =~= before.push(piece));
        }
    }
    out
}

fn app_extension(name: &Vec<char>) -> (r: bool)
    ensures
        r == has_app_extension(name@),
{
    let n = name.len();
    if n < 5 {
        return false;
    }
    let r = name[n - 4] == '.' && name[n - 3] == 'a' && name[n - 2] == 'p' && name[n - 1] == 'p';
    proof {
        reveal_strlit(".app");
        let tail = name@.skip(n - 4);
        if r {
            assert(tail =~= ".app"@);
        } else if tail == ".app"@ {
            assert(tail[0] == name@[n - 4] && tail[1] == name@[n - 3] && tail[2] == name@[n - 2] && tail[3] == name@[n - 1]);
        }
    }
    r
}

/// Whether a path names a binary inside an app bundle.
pub fn is_bundled(path: &str) -> (r: bool)
    ensures
        r == spec_is_bundled(path@),
{
    let names = split_components(path);
    let n = names.len();
    if n < 4 {
        return false;
    }
    let r = app_extension(&names[n - 4]);
    proof {
        assert(char_views(names@)[n - 4] == names@[n - 4]@);
    }
    r
}

/// Launch at login is offered only to the packaged app.
pub fn packaged_app(executable: &str) -> (r: Result<(), String>)
    ensures
        r is Ok <==> spec_is_bundled(executable@),
        r is Err ==> r->Err_0@ == "Launch at login is only available from the packaged app bundle"@,
{
    if is_bundled(executable) {
        Ok(())
    } else {
        Err(to_owned("Launch at login is only available from the packaged app bundle"))
    }
}

} // verus!
