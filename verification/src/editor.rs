//! Handing a log to the user's own editor: which one, under which file name,
//! and which files of earlier runs are swept.

use vstd::prelude::*;
use vstd::string::*;

use crate::dup::Dup;
use crate::text;

pub mod laws;

verus! {

/// What the interface asks to have opened.
#[derive(Debug)]
pub struct EditRequest {
    /// Base name only; its extension drives the editor's highlighting.
    pub file_name: String,
    pub contents: String,
    /// The `editor` setting, where it is set.
    pub configured: Option<String>,
}

#[verifier::ext_equal]
pub struct EditRequestView {
    pub file_name: Seq<char>,
    pub contents: Seq<char>,
    pub configured: Option<Seq<char>>,
}

impl DeepView for EditRequest {
    type V = EditRequestView;

    open spec fn deep_view(&self) -> EditRequestView {
        EditRequestView {
            file_name: self.file_name@,
            contents: self.contents@,
            configured: self.configured.deep_view(),
        }
    }
}

impl Dup for EditRequest {
    fn dup(&self) -> (r: Self) {
        EditRequest {
            file_name: self.file_name.dup(),
            contents: self.contents.dup(),
            configured: self.configured.dup(),
        }
    }
}


// ---- which editor --------------------------------------------------------

/// A program and its arguments, from a setting with at least one word.
pub open spec fn program_of(raw: Option<Seq<char>>) -> Option<(Seq<char>, Seq<Seq<char>>)> {
    match raw {
        Some(s) => {
            let ws = text::words(text::trimmed(s));
            if ws.len() > 0 {
                Some((ws[0], ws.skip(1)))
            } else {
                None
            }
        },
        None => None,
    }
}

/// The setting beats `$VISUAL`, which beats `$EDITOR`; without any of them a
/// pager is used, and `vi` where there is none.
pub open spec fn editor_of(
    configured: Option<Seq<char>>,
    visual: Option<Seq<char>>,
    editor: Option<Seq<char>>,
    has_less: bool,
) -> (Seq<char>, Seq<Seq<char>>) {
    match program_of(configured) {
        Some(p) => p,
        None => match program_of(visual) {
            Some(p) => p,
            None => match program_of(editor) {
                Some(p) => p,
                None => (
                    if has_less {
                        "less"@
                    } else {
                        "vi"@
                    },
                    Seq::empty(),
                ),
            },
        },
    }
}

/// The program and the arguments in a setting such as "code --wait".
pub fn split_command(raw: Option<&str>) -> (r: Option<(String, Vec<String>)>)
    ensures
        r.deep_view() == program_of(raw.deep_view()),
{
    match raw {
        Some(s) => {
            let ws = text::split_words(text::trim(s));
            let ghost all = ws.deep_view();
            assert(all.len() == ws@.len());
            if ws.len() == 0 {
                return None;
            }
            let program = text::owned(ws[0]);
            assert(program@ == all[0]);
            let mut args: Vec<String> = Vec::new();
            let mut i: usize = 1;
            while i < ws.len()
                invariant
                    all == ws.deep_view(),
                    1 <= i <= ws@.len(),
                    args@.len() == i - 1,
                    forall|k: int| 0 <= k < i - 1 ==> (#[trigger] args@[k])@ == all[k + 1],
                decreases ws@.len() - i,
            {
                args.push(text::owned(ws[i]));
                assert(all[i as int] == ws@[i as int]@);
                i = i + 1;
            }
            assert(args.deep_view() =~= all.skip(1));
            Some((program, args))
        },
        None => None,
    }
}

pub fn resolve_editor(
    configured: Option<&str>,
    visual: Option<&str>,
    editor: Option<&str>,
    has_less: bool,
) -> (r: (String, Vec<String>))
    ensures
        r.deep_view() == editor_of(
            configured.deep_view(),
            visual.deep_view(),
            editor.deep_view(),
            has_less,
        ),
{
    if let Some(p) = split_command(configured) {
        return p;
    }
    if let Some(p) = split_command(visual) {
        return p;
    }
    if let Some(p) = split_command(editor) {
        return p;
    }
    let none: Vec<String> = Vec::new();
    assert(none.deep_view() =~= Seq::<Seq<char>>::empty());
    let fallback = if has_less {
        "less"
    } else {
        "vi"
    };
    (text::owned(fallback), none)
}

// ---- file names ----------------------------------------------------------

/// A character that a file name keeps.
pub open spec fn file_char(c: char) -> bool {
    text::is_alnum(c) || c == '-' || c == '_' || c == '.'
}

pub open spec fn cleaned(s: Seq<char>) -> Seq<char> {
    s.map_values(
        |c: char|
            if file_char(c) {
                c
            } else {
                '-'
            },
    )
}

/// A name with a dash for every character that a file name does not keep, and
/// no dashes at its ends.
pub open spec fn sanitized(s: Seq<char>) -> Seq<char> {
    text::without_tail(text::without_head(cleaned(s), '-'), '-')
}

/// A file name takes fewer characters than a pipeline name, and a path separator
/// would lead out of the directory.
pub fn sanitize(name: &str) -> (r: String)
    ensures
        r@ == sanitized(name@),
{
    let cs = text::chars_of(name);
    let mut out = String::new();
    let mut i: usize = 0;
    assert(out@ =~= cleaned(name@).take(0));
    while i < cs.len()
        invariant
            cs@ == name@,
            i <= cs@.len(),
            out@ == cleaned(name@).take(i as int),
        decreases cs@.len() - i,
    {
        let c = cs[i];
        let keep = text::alnum(c) || c == '-' || c == '_' || c == '.';
        out.push(if keep { c } else { '-' });
        i = i + 1;
        assert(out@ =~= cleaned(name@).take(i as int));
    }
    assert(cleaned(name@).take(i as int) =~= cleaned(name@));
    text::owned(text::trim_end_of(text::trim_start_of(out.as_str(), '-'), '-'))
}

/// Names that stand for no file of a directory, but for itself or the one above.
pub open spec fn names_a_dir(s: Seq<char>) -> bool {
    s == Seq::<char>::empty() || s == "."@ || s == ".."@
}

/// A sanitized name, or a fixed one where that would name a directory.
pub open spec fn safe_name(s: Seq<char>) -> Seq<char> {
    if names_a_dir(sanitized(s)) {
        "untitled"@
    } else {
        sanitized(s)
    }
}

/// The name of a file that stays in its directory.
pub fn safe_file_name(name: &str) -> (r: String)
    ensures
        r@ == safe_name(name@),
{
    let r = sanitize(name);
    if r.as_str().unicode_len() == 0 || text::same(r.as_str(), ".") || text::same(
        r.as_str(),
        "..",
    ) {
        assert(r@.len() == 0 ==> r@ =~= Seq::<char>::empty());
        text::owned("untitled")
    } else {
        r
    }
}

/// The path of a file in the private directory.
pub fn temp_path(dir: &str, file_name: &str) -> (r: String)
    ensures
        r@ == dir@ + "/"@ + safe_name(file_name@),
{
    let name = safe_file_name(file_name);
    text::cat3(dir, "/", name.as_str())
}

pub open spec fn session_dir(uid: Option<u32>) -> Seq<char> {
    "lazygocd-"@ + match uid {
        Some(u) => text::dec(u as nat),
        None => "user"@,
    }
}

/// The name of the private directory of a user under the shared one.
pub fn session_dir_name(uid: Option<u32>) -> (r: String)
    ensures
        r@ == session_dir(uid),
{
    match uid {
        Some(u) => {
            let d = text::decimal_u(u as u64);
            text::cat2("lazygocd-", d.as_str())
        },
        None => text::cat2("lazygocd-", "user"),
    }
}

/// Why a directory that is already there cannot be used.
#[derive(Debug, Clone, Copy, PartialEq, Eq, Structural)]
pub enum DirRefusal {
    NotADirectory,
    OtherOwner,
}

pub open spec fn dir_refusal(is_dir: bool, owner: u32, uid: Option<u32>) -> Option<DirRefusal> {
    if !is_dir {
        Some(DirRefusal::NotADirectory)
    } else if uid is Some && uid != Some(owner) {
        Some(DirRefusal::OtherOwner)
    } else {
        None
    }
}

/// A directory that is there is used where it is one and belongs to the user;
/// a link counts as what it is, not as what it leads to.
pub fn check_session_dir(is_dir: bool, owner: u32, uid: Option<u32>) -> (r: Option<DirRefusal>)
    ensures
        r == dir_refusal(is_dir, owner, uid),
{
    if !is_dir {
        return Some(DirRefusal::NotADirectory);
    }
    match uid {
        Some(u) => if u != owner {
            Some(DirRefusal::OtherOwner)
        } else {
            None
        },
        None => None,
    }
}

/// What is said of a refused directory.
pub fn dir_refusal_text(dir: &str, why: DirRefusal) -> (r: String)
    ensures
        r@ == dir@ + match why {
            DirRefusal::NotADirectory => " exists and is not a directory"@,
            DirRefusal::OtherOwner => " is owned by another user"@,
        },
{
    match why {
        DirRefusal::NotADirectory => text::cat2(dir, " exists and is not a directory"),
        DirRefusal::OtherOwner => text::cat2(dir, " is owned by another user"),
    }
}

pub open spec fn swept(
    name: Seq<char>,
    prefixed: bool,
    is_dir: bool,
    age: Option<u64>,
    max_age: u64,
) -> bool {
    (prefixed ==> text::begins(name, "lazygocd-"@)) && !is_dir && (age matches Some(a) && a
        > max_age)
}

/// Whether a file is swept: older than `max_age` (both in one unit; no age where
/// it is not known), no directory, and in the shared directory only under the
/// prefix.
pub fn is_swept(name: &str, prefixed: bool, is_dir: bool, age: Option<u64>, max_age: u64) -> (r:
    bool)
    ensures
        r == swept(name@, prefixed, is_dir, age, max_age),
{
    if prefixed && !text::starts_with(name, "lazygocd-") {
        return false;
    }
    if is_dir {
        return false;
    }
    match age {
        Some(a) => a > max_age,
        None => false,
    }
}

// ---- laws ----------------------------------------------------------------

proof fn lemma_without_head_part(s: Seq<char>, c: char)
    ensures
        text::without_head(s, c).len() <= s.len(),
        text::without_head(s, c) == s.skip(s.len() - text::without_head(s, c).len()),
        text::without_head(s, c).len() > 0 ==> text::without_head(s, c)[0] != c,
    decreases s.len(),
{
    if s.len() > 0 && s[0] == c {
        lemma_without_head_part(s.skip(1), c);
        let r = text::without_head(s, c);
        assert(s.skip(1).skip(s.len() - 1 - r.len()) =~= s.skip(s.len() - r.len()));
    } else {
        assert(s.skip(0) =~= s);
    }
}

proof fn lemma_without_tail_part(s: Seq<char>, c: char)
    ensures
        text::without_tail(s, c).len() <= s.len(),
        text::without_tail(s, c) == s.take(text::without_tail(s, c).len() as int),
        text::without_tail(s, c).len() > 0 ==> text::without_tail(s, c).last() != c,
    decreases s.len(),
{
    if s.len() > 0 && s.last() == c {
        lemma_without_tail_part(s.drop_last(), c);
        let r = text::without_tail(s, c);
        assert(s.drop_last().take(r.len() as int) =~= s.take(r.len() as int));
    } else {
        assert(s.take(s.len() as int) =~= s);
    }
}

/// A sanitized name holds only characters that a file name keeps, so no path
/// separator, and neither starts nor ends with a dash.
pub proof fn sanitized_names_have_no_separators(s: Seq<char>)
    ensures
        forall|i: int| 0 <= i < sanitized(s).len() ==> file_char(#[trigger] sanitized(s)[i]),
        forall|i: int| 0 <= i < sanitized(s).len() ==> #[trigger] sanitized(s)[i] != '/',
        forall|i: int| 0 <= i < sanitized(s).len() ==> #[trigger] sanitized(s)[i] != '\\',
        sanitized(s).len() > 0 ==> sanitized(s)[0] != '-' && sanitized(s).last() != '-',
{
    let c = cleaned(s);
    let h = text::without_head(c, '-');
    lemma_without_head_part(c, '-');
    lemma_without_tail_part(h, '-');
    let r = sanitized(s);
    let k = c.len() - h.len();
    assert forall|i: int| 0 <= i < r.len() implies file_char(#[trigger] r[i]) by {
        assert(r[i] == h[i]);
        assert(h[i] == c[k + i]);
    }
    if r.len() > 0 {
        assert(r[0] == h[0]);
    }
}

/// No name leads out of the directory: the last part of a path has no separator,
/// and is neither empty nor a name for the directory or the one above.
pub proof fn files_stay_in_their_directory(s: Seq<char>)
    ensures
        forall|i: int| 0 <= i < safe_name(s).len() ==> #[trigger] safe_name(s)[i] != '/',
        forall|i: int| 0 <= i < safe_name(s).len() ==> #[trigger] safe_name(s)[i] != '\\',
        !names_a_dir(safe_name(s)),
{
    sanitized_names_have_no_separators(s);
    reveal_strlit("untitled");
    reveal_strlit(".");
    reveal_strlit("..");
    assert("untitled"@.len() == 8 && "."@.len() == 1 && ".."@.len() == 2);
}

/// Sanitizing a sanitized name changes nothing.
pub proof fn sanitizing_is_idempotent(s: Seq<char>)
    ensures
        sanitized(sanitized(s)) == sanitized(s),
{
    sanitized_names_have_no_separators(s);
    let r = sanitized(s);
    assert(cleaned(r) =~= r);
}

/// A setting that is blank counts as none.
pub proof fn blank_settings_fall_through(
    visual: Option<Seq<char>>,
    editor: Option<Seq<char>>,
    has_less: bool,
    blank: Seq<char>,
)
    requires
        text::trimmed(blank).len() == 0,
    ensures
        editor_of(Some(blank), visual, editor, has_less) == editor_of(
            None,
            visual,
            editor,
            has_less,
        ),
{
    let t = text::trimmed(blank);
    assert(text::run_len(t, true) == 0);
    assert(t.skip(0).len() == 0);
    assert(text::words(t).len() == 0);
}

} // verus!
