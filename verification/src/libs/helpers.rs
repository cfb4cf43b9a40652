//! Paths as text: joining them, bringing them to one form, and telling
//! which of a list of files are not there.

use vstd::prelude::*;
use vstd::string::*;
use crate::libs::pattern::{regex_compiles, regex_replaced, replace};
use crate::libs::text::{join_strs, joined, opt_view, push_char, slice_views, views};

verus! {

/// The pattern of what is taken off the front of a path: any run of `/` and
/// `./`.
pub const LEADING_SEPARATORS: &'static str = "^(\\.?\\/)+";

/// The text with every backslash turned into a slash.
pub open spec fn slashed(s: Seq<char>) -> Seq<char> {
    Seq::new(
        s.len(),
        |i: int|
            if s[i] == '\\' {
                '/'
            } else {
                s[i]
            },
    )
}

/// The text without the separators at its front, as the `regex` crate takes
/// them off.
pub open spec fn without_leading_separators(text: Seq<char>) -> Seq<char> {
    if regex_compiles(LEADING_SEPARATORS@) {
        regex_replaced(LEADING_SEPARATORS@, text, Seq::<char>::empty())
    } else {
        text
    }
}

/// The path that the parts make: joined with `/`, with forward slashes
/// only, and relative.
pub open spec fn path_of(parts: Seq<Seq<char>>) -> Seq<char> {
    without_leading_separators(slashed(joined(parts, '/')))
}

/// Turns every backslash into a slash.
fn forward_slashes(s: &str) -> (r: String)
    ensures
        r@ == slashed(s@),
{
    let mut out = String::new();
    for c in it: s.chars()
        invariant
            it.seq() == s@,
            out@ == slashed(s@.subrange(0, it.index() as int)),
    {
        if c == '\\' {
            push_char(&mut out, '/');
        } else {
            push_char(&mut out, c);
        }
        assert(out@ =~= slashed(s@.subrange(0, it.index() + 1)));
    }
    assert(s@.subrange(0, s@.len() as int) =~= s@);
    out
}

/// The path that the parts make: joined with `/`, every backslash turned
/// into a slash, and the separators at the front taken off.
pub fn to_path_str(parts: Vec<&str>) -> (r: String)
    ensures
        r@ == path_of(slice_views(parts@)),
{
    let whole = join_strs(&parts, '/');
    let text = forward_slashes(whole.as_str());
    proof {
        reveal_strlit("");
        assert(""@ =~= Seq::<char>::empty());
    }
    match replace(LEADING_SEPARATORS, text.as_str(), "") {
        Some(stripped) => stripped,
        None => text,
    }
}

/// The files of the list that are not there, in the order of the list.
/// `present` says of each file whether it is there.
pub open spec fn missing(files: Seq<Seq<char>>, present: Seq<bool>) -> Seq<Seq<char>>
    decreases files.len(),
{
    if files.len() == 0 || present.len() != files.len() {
        Seq::<Seq<char>>::empty()
    } else {
        let rest = missing(files.drop_last(), present.drop_last());
        if present.last() {
            rest
        } else {
            rest.push(files.last())
        }
    }
}

/// Tells which files are not there. The caller looks each file up and
/// gives the answers in `present`, one for each file.
pub fn check_files_existence(files: &Vec<String>, present: &Vec<bool>) -> (r: Vec<String>)
    requires
        files.len() == present.len(),
    ensures
        views(r@) == missing(views(files@), present@),
{
    let mut out: Vec<String> = Vec::new();
    let mut i: usize = 0;
    assert(views(files@).subrange(0, 0) =~= Seq::<Seq<char>>::empty());
    assert(views(out@) =~= Seq::<Seq<char>>::empty());
    while i < files.len()
        invariant
            i <= files.len(),
            files.len() == present.len(),
            views(out@) == missing(
                views(files@).subrange(0, i as int),
                present@.subrange(0, i as int),
            ),
        decreases files.len() - i,
    {
        let ghost names = views(files@).subrange(0, i + 1);
        let ghost flags = present@.subrange(0, i + 1);
        assert(names.drop_last() =~= views(files@).subrange(0, i as int));
        assert(flags.drop_last() =~= present@.subrange(0, i as int));
        let ghost before = views(out@);
        if !present[i] {
            out.push(files[i].clone());
            assert(views(out@) =~= before.push(files@[i as int]@));
        }
        i = i + 1;
    }
    assert(views(files@).subrange(0, i as int) =~= views(files@));
    assert(present@.subrange(0, i as int) =~= present@);
    out
}

/// Whether the path starts at the root.
pub open spec fn is_rooted(path: Seq<char>) -> bool {
    path.len() > 0 && path[0] == '/'
}

/// The path that `path_absolutize::Absolutize::absolutize_from` returns for
/// a path and a working directory, as text. The crate works it out from
/// the two alone, by the rules for paths of the platform that the library is
/// built for.
pub uninterp spec fn absolutized(path: Seq<char>, cwd: Seq<char>) -> Seq<char>;

/// Makes the path absolute against `cwd` with
/// `path_absolutize::Absolutize::absolutize_from`, which reads nothing but
/// its two arguments and, in the crate's code, ends in `Ok` on every way
/// through it. The result is made of pieces of the two texts and of
/// separators, so it is text again. For a path without any component the
/// crate hands `cwd` back as it is. For a `cwd` that does not start at the
/// root the crate can underflow a count, so such a `cwd` is left out.
#[verifier::external_body]
fn absolutize_from(path: &str, cwd: &str) -> (r: Option<String>)
    requires
        is_rooted(cwd@),
    ensures
        opt_view(r) == Some(absolutized(path@, cwd@)),
        path@.len() == 0 ==> opt_view(r) == Some(cwd@),
{
    match path_absolutize::Absolutize::absolutize_from(std::path::Path::new(path), cwd) {
        Ok(p) => p.to_str().map(|s| s.to_string()),
        Err(_) => None,
    }
}

/// The absolute form of a path against a working directory: there is one
/// exactly where the working directory starts at the root.
pub open spec fn abs_path(path: Seq<char>, cwd: Seq<char>) -> Option<Seq<char>> {
    if is_rooted(cwd) {
        Some(absolutized(path, cwd))
    } else {
        None
    }
}

/// The path made absolute against the working directory `cwd`, without a
/// look at the file system. `None` where `cwd` does not start at the root,
/// and only then. An empty path stands for the working directory itself.
pub fn to_abs_path(path: &str, cwd: &str) -> (r: Option<String>)
    ensures
        opt_view(r) == abs_path(path@, cwd@),
        is_rooted(cwd@) && path@.len() == 0 ==> opt_view(r) == Some(cwd@),
{
    let rooted = cwd.unicode_len() > 0 && cwd.get_char(0) == '/';
    if rooted {
        absolutize_from(path, cwd)
    } else {
        None
    }
}

} // verus!
