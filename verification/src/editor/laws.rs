//! What holds of handing a text to an editor: which one, and in which file.

use vstd::prelude::*;
use vstd::string::*;

use crate::app::laws::acting::starts_with;
use crate::editor::{dir_refusal, editor_of, session_dir, swept, DirRefusal};
use crate::text;
use crate::text::laws::{blank, numbers_are_read_back, words_stand_between_spaces};

verus! {

/// Whether a setting names this program, with nothing behind it.
pub open spec fn names_program(raw: Option<Seq<char>>, program: Seq<char>) -> bool {
    raw == Some(program) && program.len() > 0 && forall|i: int|
        0 <= i < program.len() ==> !text::is_space(#[trigger] program[i])
}

/// Whether a setting is unset or blank.
pub open spec fn names_nothing(raw: Option<Seq<char>>) -> bool {
    raw is None || blank(raw->0)
}

proof fn lemma_one_word(raw: Option<Seq<char>>, program: Seq<char>)
    requires
        names_program(raw, program),
    ensures
        text::words(text::trimmed(program)) == seq![program],
{
    let none = Seq::<char>::empty();
    crate::text::laws::what_is_around_is_trimmed(none, program, none);
    assert(none + program + none =~= program);
    words_stand_between_spaces(none, program, none);
    words_stand_between_spaces(none, program, none);
    assert(seq![program] + text::words(none) =~= seq![program]);
}

proof fn lemma_no_word(raw: Seq<char>)
    requires
        blank(raw),
    ensures
        text::words(text::trimmed(raw)).len() == 0,
{
    let none = Seq::<char>::empty();
    crate::text::laws::what_is_around_is_trimmed(raw, none, none);
    assert(raw + none + none =~= raw);
}

/// The setting comes before `$VISUAL`, which comes before `$EDITOR`; where none
/// of them names anything it is the pager, or `vi` where that is missing.
pub proof fn the_first_that_is_set_is_used(
    configured: Option<Seq<char>>,
    visual: Option<Seq<char>>,
    editor: Option<Seq<char>>,
    has_less: bool,
    program: Seq<char>,
)
    ensures
        names_program(configured, program) ==> editor_of(
            configured,
            visual,
            editor,
            has_less,
        ).0 == program,
        names_nothing(configured) && names_program(visual, program) ==> editor_of(
            configured,
            visual,
            editor,
            has_less,
        ).0 == program,
        names_nothing(configured) && names_nothing(visual) && names_program(editor, program)
            ==> editor_of(configured, visual, editor, has_less).0 == program,
        names_nothing(configured) && names_nothing(visual) && names_nothing(editor) ==> editor_of(
            configured,
            visual,
            editor,
            has_less,
        ).0 == if has_less {
            "less"@
        } else {
            "vi"@
        },
{
    lemma_setting(configured, program);
    lemma_setting(visual, program);
    lemma_setting(editor, program);
}

proof fn lemma_setting(raw: Option<Seq<char>>, program: Seq<char>)
    ensures
        names_program(raw, program) ==> crate::editor::program_of(raw) == Some(
            (program, Seq::<Seq<char>>::empty()),
        ),
        names_nothing(raw) ==> crate::editor::program_of(raw) is None,
{
    if names_program(raw, program) {
        lemma_one_word(raw, program);
        assert(seq![program].skip(1) =~= Seq::<Seq<char>>::empty());
    }
    if raw is Some && names_nothing(raw) {
        lemma_no_word(raw->0);
    }
}

/// The words of a setting behind the first one are arguments of the program.
pub proof fn arguments_go_along(program: Seq<char>, argument: Seq<char>)
    requires
        names_program(Some(program), program),
        names_program(Some(argument), argument),
    ensures
        crate::editor::program_of(Some(program + " "@ + argument)) == Some(
            (program, seq![argument]),
        ),
{
    reveal_strlit(" ");
    let none = Seq::<char>::empty();
    let raw = program + " "@ + argument;
    assert(raw[0] == program[0]);
    assert(raw.last() == argument.last());
    crate::text::laws::what_is_around_is_trimmed(none, raw, none);
    assert(none + raw + none =~= raw);
    let rest = " "@ + argument;
    assert(none + program + rest =~= raw);
    words_stand_between_spaces(none, program, rest);
    assert(rest + none =~= rest);
    assert(blank(" "@));
    words_stand_between_spaces(" "@, argument, none);
    words_stand_between_spaces(none, argument, none);
    assert(text::words(rest) =~= seq![argument]);
    assert(text::words(raw) =~= seq![program, argument]);
    assert(seq![program, argument].skip(1) =~= seq![argument]);
}

/// Only a directory of the user's own is used, and every such one is.
pub proof fn only_an_own_directory_is_used(is_dir: bool, owner: u32, uid: u32)
    ensures
        dir_refusal(is_dir, owner, Some(uid)) is None <==> is_dir && owner == uid,
        dir_refusal(is_dir, owner, None) is None <==> is_dir,
        !is_dir ==> dir_refusal(is_dir, owner, Some(uid)) == Some(DirRefusal::NotADirectory),
        is_dir && owner != uid ==> dir_refusal(is_dir, owner, Some(uid)) == Some(
            DirRefusal::OtherOwner,
        ),
{
}

/// Users have directories of their own, all under one prefix.
pub proof fn users_have_their_own_directories(a: u32, b: u32)
    ensures
        a != b ==> session_dir(Some(a)) != session_dir(Some(b)),
        starts_with(session_dir(Some(a)), "lazygocd-"@),
{
    let head = "lazygocd-"@;
    let x = text::dec(a as nat);
    let y = text::dec(b as nat);
    numbers_are_read_back(a as nat);
    numbers_are_read_back(b as nat);
    assert((head + x).skip(head.len() as int) =~= x);
    assert((head + y).skip(head.len() as int) =~= y);
    assert((head + x).subrange(0, head.len() as int) =~= head);
}

/// What is swept stays swept when it gets older; what is too young, a directory,
/// of unknown age or in the shared directory of another name never is.
pub proof fn only_old_files_are_swept(
    name: Seq<char>,
    prefixed: bool,
    is_dir: bool,
    age: u64,
    older: u64,
    max_age: u64,
)
    ensures
        swept(name, prefixed, is_dir, Some(age), max_age) && age <= older ==> swept(
            name,
            prefixed,
            is_dir,
            Some(older),
            max_age,
        ),
        age <= max_age ==> !swept(name, prefixed, is_dir, Some(age), max_age),
        !swept(name, prefixed, true, Some(age), max_age),
        !swept(name, prefixed, is_dir, None, max_age),
        !starts_with(name, "lazygocd-"@) ==> !swept(name, true, is_dir, Some(age), max_age),
        max_age < age ==> swept(name, false, false, Some(age), max_age),
        max_age < age && starts_with(name, "lazygocd-"@) ==> swept(
            name,
            true,
            false,
            Some(age),
            max_age,
        ),
{
}

} // verus!
