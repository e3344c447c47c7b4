//! Shell completion of pipeline names.

use vstd::prelude::*;
use vstd::string::*;

use crate::text;

verus! {

/// The shells whose scripts can complete pipeline names; any other is left as it
/// is.
#[derive(Debug, Clone, Copy, PartialEq, Eq, Structural)]
pub enum Shell {
    Zsh,
    Bash,
    Fish,
    Other,
}

/// `s` with `to` in place of every `from`, taken from the left.
pub open spec fn substituted(s: Seq<char>, from: Seq<char>, to: Seq<char>) -> Seq<char>
    decreases s.len(),
    via substituted_shrinks
{
    match text::first_place(s, from) {
        Some(i) => if from.len() > 0 {
            s.take(i) + to + substituted(s.skip(i + from.len()), from, to)
        } else {
            s
        },
        None => s,
    }
}

#[via_fn]
proof fn substituted_shrinks(s: Seq<char>, from: Seq<char>, to: Seq<char>) {
    text::lemma_first_place_found(s, from);
}

fn substitute(s: &str, from: &str, to: &str) -> (r: String)
    ensures
        r@ == substituted(s@, from@, to@),
    decreases s@.len(),
{
    let n: usize = s.unicode_len();
    let m: usize = from.unicode_len();
    match text::find(s, from) {
        Some(i) => if m > 0 {
            let head = s.substring_char(0, i);
            let tail = s.substring_char(i + m, n);
            assert(head@ =~= s@.take(i as int));
            assert(tail@ =~= s@.skip(i + m));
            let rest = substitute(tail, from, to);
            text::cat3(head, to, rest.as_str())
        } else {
            text::owned(s)
        },
        None => text::owned(s),
    }
}

pub const NOTE: &'static str =
    "\n# PIPELINE completes from lazygocd's cached dashboard (no network).\n";

pub const ZSH_FUNCTION: &'static str =
    "_lazygocd_pipeline_names() {\n  local -a names\n  names=(${(f)\"$(lazygocd pipelines 2>/dev/null)\"})\n  (( ${#names} )) && _describe -t pipelines pipeline names\n}\n";

pub const BASH_TAIL: &'static str =
    "_lazygocd_with_pipelines() {\n  _lazygocd\n  local cur=\"${COMP_WORDS[COMP_CWORD]}\"\n  if [[ $cur != -* ]]; then\n    COMPREPLY+=( $(compgen -W \"$(lazygocd pipelines 2>/dev/null)\" -- \"$cur\") )\n  fi\n}\ncomplete -o bashdefault -o default -F _lazygocd_with_pipelines lazygocd\n";

pub const FISH_TAIL: &'static str =
    "complete -c lazygocd -n '__fish_use_subcommand' -a '(lazygocd pipelines 2>/dev/null)' -d pipeline\n";

pub const ZSH_SLOT: &'static str = "the initials will do:_default'";

pub const ZSH_NAMES: &'static str = "the initials will do:_lazygocd_pipeline_names'";

/// `func` put after the first line of `s`, or at its end where it has no line
/// feed.
pub open spec fn after_first_line(s: Seq<char>, func: Seq<char>) -> Seq<char> {
    if s.contains('\n') {
        let k = text::span(s, '\n') + 1;
        s.take(k) + func + s.skip(k)
    } else {
        s + func
    }
}

fn insert_after_first_line(s: &str, func: &str) -> (r: String)
    ensures
        r@ == after_first_line(s@, func@),
{
    let cs = text::chars_of(s);
    let k: usize = text::scan(&cs, '\n', 0);
    assert(s@.skip(0) =~= s@);
    if k < cs.len() {
        assert(s@[k as int] == '\n');
        let head = s.substring_char(0, k + 1);
        let tail = s.substring_char(k + 1, cs.len());
        assert(head@ =~= s@.take(k + 1));
        assert(tail@ =~= s@.skip(k + 1));
        text::cat3(head, func, tail)
    } else {
        text::cat2(s, func)
    }
}

/// The script of a shell with its slot for a pipeline completed from the names in
/// the cache. For zsh the function stands above the last line, which calls it;
/// bash has no hook per argument, so its function is wrapped.
pub open spec fn completed(shell: Shell, script: Seq<char>) -> Seq<char> {
    match shell {
        Shell::Zsh => after_first_line(
            substituted(script, ZSH_SLOT@, ZSH_NAMES@),
            NOTE@ + ZSH_FUNCTION@,
        ),
        Shell::Bash => script + NOTE@ + BASH_TAIL@,
        Shell::Fish => script + NOTE@ + FISH_TAIL@,
        Shell::Other => script,
    }
}

/// A generated script completes a pipeline with file names. This completes it
/// with what `lazygocd pipelines` prints.
pub fn with_pipeline_completion(shell: Shell, script: String) -> (r: String)
    ensures
        r@ == completed(shell, script@),
{
    match shell {
        Shell::Zsh => {
            let patched = substitute(script.as_str(), ZSH_SLOT, ZSH_NAMES);
            let func = text::cat2(NOTE, ZSH_FUNCTION);
            insert_after_first_line(patched.as_str(), func.as_str())
        },
        Shell::Bash => text::cat3(script.as_str(), NOTE, BASH_TAIL),
        Shell::Fish => text::cat3(script.as_str(), NOTE, FISH_TAIL),
        Shell::Other => script,
    }
}

// ---- laws ----------------------------------------------------------------

/// For bash and fish the script is kept whole and what completes pipelines follows
/// it; for other shells it is kept as it is.
pub proof fn scripts_are_kept(script: Seq<char>)
    ensures
        text::begins(completed(Shell::Bash, script), script),
        text::finishes(completed(Shell::Bash, script), BASH_TAIL@),
        text::begins(completed(Shell::Fish, script), script),
        text::finishes(completed(Shell::Fish, script), FISH_TAIL@),
        completed(Shell::Other, script) == script,
{
    let b = completed(Shell::Bash, script);
    let f = completed(Shell::Fish, script);
    assert(b.subrange(0, script.len() as int) =~= script);
    assert(f.subrange(0, script.len() as int) =~= script);
    assert(b.subrange(b.len() - BASH_TAIL@.len(), b.len() - BASH_TAIL@.len() + BASH_TAIL@.len())
        =~= BASH_TAIL@);
    assert(f.subrange(f.len() - FISH_TAIL@.len(), f.len() - FISH_TAIL@.len() + FISH_TAIL@.len())
        =~= FISH_TAIL@);
}

/// For zsh the slot of a pipeline calls the function that lists the names, and the
/// function stands below the first line.
pub proof fn the_slot_is_filled(first: Seq<char>, before: Seq<char>, after: Seq<char>)
    requires
        !first.contains('\n'),
        forall|i: int|
            0 <= i < first.len() + 1 + before.len() ==> !#[trigger] text::occurs_at(
                first.push('\n') + before + ZSH_SLOT@ + after,
                ZSH_SLOT@,
                i,
            ),
        !text::has(after, ZSH_SLOT@),
    ensures
        completed(Shell::Zsh, first.push('\n') + before + ZSH_SLOT@ + after) == first.push('\n')
            + (NOTE@ + ZSH_FUNCTION@) + (before + ZSH_NAMES@ + after),
{
    let head = first.push('\n') + before;
    let script = head + ZSH_SLOT@ + after;
    let k = head.len() as int;
    reveal_strlit("the initials will do:_default'");
    assert(ZSH_SLOT@.len() > 0);
    assert(script.subrange(k, k + ZSH_SLOT@.len()) =~= ZSH_SLOT@);
    assert(text::occurs_at(script, ZSH_SLOT@, k));
    text::lemma_first_place(script, ZSH_SLOT@, k);
    text::lemma_first_place_found(after, ZSH_SLOT@);
    assert(script.take(k) =~= head);
    assert(script.skip(k + ZSH_SLOT@.len()) =~= after);
    reveal_with_fuel(substituted, 2);
    assert(substituted(after, ZSH_SLOT@, ZSH_NAMES@) == after);
    let patched = substituted(script, ZSH_SLOT@, ZSH_NAMES@);
    let rest = before + ZSH_NAMES@ + after;
    assert(patched =~= first.push('\n') + rest);
    let n = first.len() as int;
    assert(patched[n] == '\n');
    assert forall|i: int| 0 <= i < n implies patched[i] != '\n' by {
        assert(patched[i] == first[i]);
        assert(first.contains(first[i]));
    }
    text::lemma_span(patched, '\n', n);
    assert(patched.contains('\n'));
    assert(patched.take(n + 1) =~= first.push('\n'));
    assert(patched.skip(n + 1) =~= rest);
}

} // verus!
