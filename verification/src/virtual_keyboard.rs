//! Transcript-to-keystroke synchronization.
//!
//! [`VirtualKeyboard`] keeps the text on screen in step with the latest
//! transcript snapshot using the minimum number of key operations under a
//! backspace-only/append-only editing model, and recognizes a trailing
//! spoken "enter" command on finalization.  The physical realization of
//! key operations is abstracted behind [`KeyboardHardware`]; the verified
//! contracts speak about the sequence of abstract operations a hardware
//! instance performs.
//!
//! In the abstract operation log a typed character is recorded by its
//! Unicode scalar value (`char as u32`).

use vstd::prelude::*;
use vstd::string::*;

verus! {

/// One abstract key operation issued to the keyboard hardware.
#[derive(Clone, Copy, PartialEq, Eq, Structural, Debug)]
pub enum KeyOp {
    /// Type the character with this Unicode scalar value.
    Char(u32),
    /// Press backspace once.
    Backspace,
    /// Press enter once.
    Enter,
}

/// A key-operation failure reported by the hardware.
#[derive(Debug, Clone)]
pub struct HardwareError {
    pub message: String,
}

/// The operations that type the characters of `s`, in order.
pub open spec fn type_ops(s: Seq<char>) -> Seq<KeyOp>
    decreases s.len(),
{
    if s.len() == 0 {
        Seq::empty()
    } else {
        type_ops(s.drop_last()).push(KeyOp::Char(s.last() as u32))
    }
}

/// `n` backspace operations.
pub open spec fn backspace_ops(n: int) -> Seq<KeyOp>
    recommends
        n >= 0,
    decreases n,
{
    if n <= 0 {
        Seq::empty()
    } else {
        backspace_ops(n - 1).push(KeyOp::Backspace)
    }
}

/// The number of leading characters identical between `a` and `b`,
/// compared in character units.
pub open spec fn common_prefix_len(a: Seq<char>, b: Seq<char>) -> nat
    decreases a.len(),
{
    if a.len() == 0 || b.len() == 0 || a[0] != b[0] {
        0
    } else {
        1 + common_prefix_len(a.drop_first(), b.drop_first())
    }
}

/// The minimal key-operation sequence that rewrites on-screen text `a`
/// into `b` when the only available edits are backspacing at the end and
/// appending at the end: backspace everything after the common prefix,
/// then type the rest of `b`.
pub open spec fn edit_ops(a: Seq<char>, b: Seq<char>) -> Seq<KeyOp> {
    backspace_ops(a.len() - common_prefix_len(a, b)) + type_ops(
        b.skip(common_prefix_len(a, b) as int),
    )
}

/// `type_ops` types exactly the characters of its argument, in order.
pub proof fn lemma_type_ops_properties(s: Seq<char>)
    ensures
        type_ops(s).len() == s.len(),
        forall|i: int| 0 <= i < s.len() ==> type_ops(s)[i] == KeyOp::Char(s[i] as u32),
    decreases s.len(),
{
    if s.len() > 0 {
        lemma_type_ops_properties(s.drop_last());
    }
}

/// `backspace_ops` is exactly `n` backspaces.
pub proof fn lemma_backspace_ops_properties(n: int)
    ensures
        backspace_ops(n).len() == if n >= 0 {
            n
        } else {
            0
        },
        forall|i: int| 0 <= i < n ==> backspace_ops(n)[i] == KeyOp::Backspace,
    decreases n,
{
    if n > 0 {
        lemma_backspace_ops_properties(n - 1);
    }
}

/// Extending a character sequence by one character appends one typing
/// operation to its `type_ops`.
pub proof fn lemma_type_ops_push(s: Seq<char>, c: char)
    ensures
        type_ops(s.push(c)) == type_ops(s).push(KeyOp::Char(c as u32)),
{
    assert(s.push(c).drop_last() =~= s);
    assert(s.push(c).last() == c);
}

/// A prefix of `type_ops` types the same prefix of the characters.
pub proof fn lemma_type_ops_take(s: Seq<char>, m: int)
    requires
        0 <= m <= s.len(),
    ensures
        type_ops(s.take(m)) == type_ops(s).take(m),
{
    lemma_type_ops_properties(s);
    lemma_type_ops_properties(s.take(m));
    assert(type_ops(s.take(m)) =~= type_ops(s).take(m));
}

/// `common_prefix_len` is bounded by both lengths, the characters below
/// it agree, and the characters just past it (when both exist) differ.
pub proof fn lemma_common_prefix_len_properties(a: Seq<char>, b: Seq<char>)
    ensures
        common_prefix_len(a, b) <= a.len(),
        common_prefix_len(a, b) <= b.len(),
        forall|i: int| 0 <= i < common_prefix_len(a, b) ==> a[i] == b[i],
        common_prefix_len(a, b) < a.len() && common_prefix_len(a, b) < b.len() ==> a[
            common_prefix_len(a, b) as int
        ] != b[common_prefix_len(a, b) as int],
    decreases a.len(),
{
    if a.len() == 0 || b.len() == 0 || a[0] != b[0] {
    } else {
        lemma_common_prefix_len_properties(a.drop_first(), b.drop_first());
        assert(forall|i: int|
            1 <= i < common_prefix_len(a, b) ==> a[i] == a.drop_first()[i - 1] && b[i]
                == b.drop_first()[i - 1]);
    }
}

/// Any `l` below both lengths at which the strings first differ (or reach
/// an end) is the common prefix length.
pub proof fn lemma_common_prefix_len_unique(a: Seq<char>, b: Seq<char>, l: int)
    requires
        0 <= l <= a.len(),
        l <= b.len(),
        forall|i: int| 0 <= i < l ==> a[i] == b[i],
        l == a.len() || l == b.len() || a[l] != b[l],
    ensures
        l == common_prefix_len(a, b),
    decreases a.len(),
{
    if l == 0 {
        if a.len() == 0 || b.len() == 0 {
        } else {
            assert(a[0] != b[0]);
        }
    } else {
        assert(a[0] == b[0]);
        lemma_common_prefix_len_unique(a.drop_first(), b.drop_first(), l - 1);
    }
}

/// Taking `j` operations from a sequence that starts with `n >= j`
/// backspaces yields exactly `j` backspaces.
pub proof fn lemma_take_from_backspace_run(t: Seq<KeyOp>, n: int, j: int)
    requires
        0 <= j <= n,
    ensures
        (backspace_ops(n) + t).take(j) == backspace_ops(j),
{
    lemma_backspace_ops_properties(n);
    lemma_backspace_ops_properties(j);
    assert((backspace_ops(n) + t).take(j) =~= backspace_ops(j));
}

/// Taking the backspaces and the first `m` typed characters from an edit
/// script is the script truncated after `m` typing operations.
pub proof fn lemma_edit_ops_take_typed(a: Seq<char>, b: Seq<char>, m: int)
    requires
        0 <= m <= b.len() - common_prefix_len(a, b),
    ensures
        edit_ops(a, b).take(a.len() - common_prefix_len(a, b) + m) == backspace_ops(
            a.len() - common_prefix_len(a, b),
        ) + type_ops(b.skip(common_prefix_len(a, b) as int).take(m)),
{
    let l = common_prefix_len(a, b) as int;
    let cnt = a.len() - l;
    lemma_common_prefix_len_properties(a, b);
    lemma_backspace_ops_properties(cnt);
    lemma_type_ops_properties(b.skip(l));
    lemma_type_ops_take(b.skip(l), m);
    assert(edit_ops(a, b).take(cnt + m) =~= backspace_ops(cnt) + type_ops(b.skip(l)).take(m));
}

/// The hardware has performed some prefix of `script` on top of `base`:
/// the state of an edit that was aborted partway through.
pub open spec fn performed_prefix(base: Seq<KeyOp>, cur: Seq<KeyOp>, script: Seq<KeyOp>) -> bool {
    exists|k: int| 0 <= k <= script.len() && cur == base + script.take(k)
}

/// Exhibits the number of performed operations for `performed_prefix`.
pub proof fn lemma_performed_prefix_intro(
    base: Seq<KeyOp>,
    cur: Seq<KeyOp>,
    script: Seq<KeyOp>,
    k: int,
)
    requires
        0 <= k <= script.len(),
        cur == base + script.take(k),
    ensures
        performed_prefix(base, cur, script),
{
    assert(0 <= k <= script.len() && cur == base + script.take(k));
}

// ---------------------------------------------------------------------
// Operation counts and replay: the laws of the minimal edit.
// ---------------------------------------------------------------------

/// The number of backspace operations in `ops`.
pub open spec fn count_backspaces(ops: Seq<KeyOp>) -> nat
    decreases ops.len(),
{
    if ops.len() == 0 {
        0
    } else {
        count_backspaces(ops.drop_last()) + if ops.last() is Backspace {
            1nat
        } else {
            0
        }
    }
}

/// The number of typed characters in `ops`.
pub open spec fn count_typed(ops: Seq<KeyOp>) -> nat
    decreases ops.len(),
{
    if ops.len() == 0 {
        0
    } else {
        count_typed(ops.drop_last()) + if ops.last() is Char {
            1nat
        } else {
            0
        }
    }
}

/// The number of enter (commit) operations in `ops`.
pub open spec fn count_enters(ops: Seq<KeyOp>) -> nat
    decreases ops.len(),
{
    if ops.len() == 0 {
        0
    } else {
        count_enters(ops.drop_last()) + if ops.last() is Enter {
            1nat
        } else {
            0
        }
    }
}

/// All three counts distribute over concatenation.
pub proof fn lemma_counts_concat(x: Seq<KeyOp>, y: Seq<KeyOp>)
    ensures
        count_backspaces(x + y) == count_backspaces(x) + count_backspaces(y),
        count_typed(x + y) == count_typed(x) + count_typed(y),
        count_enters(x + y) == count_enters(x) + count_enters(y),
    decreases y.len(),
{
    if y.len() == 0 {
        assert(x + y =~= x);
    } else {
        lemma_counts_concat(x, y.drop_last());
        assert((x + y).drop_last() =~= x + y.drop_last());
        assert((x + y).last() == y.last());
    }
}

/// A run of backspaces counts as backspaces only.
pub proof fn lemma_counts_backspace_ops(n: int)
    requires
        n >= 0,
    ensures
        count_backspaces(backspace_ops(n)) == n,
        count_typed(backspace_ops(n)) == 0,
        count_enters(backspace_ops(n)) == 0,
    decreases n,
{
    if n > 0 {
        lemma_counts_backspace_ops(n - 1);
        assert(backspace_ops(n).drop_last() =~= backspace_ops(n - 1));
        assert(backspace_ops(n).last() == KeyOp::Backspace);
    }
}

/// A run of typed characters counts as typed characters only.
pub proof fn lemma_counts_type_ops(s: Seq<char>)
    ensures
        count_backspaces(type_ops(s)) == 0,
        count_typed(type_ops(s)) == s.len(),
        count_enters(type_ops(s)) == 0,
    decreases s.len(),
{
    if s.len() > 0 {
        lemma_counts_type_ops(s.drop_last());
        assert(type_ops(s).drop_last() =~= type_ops(s.drop_last()));
        assert(type_ops(s).last() == KeyOp::Char(s.last() as u32));
    }
}

/// For a transcript change from `a` to `b`, the edit script issues
/// exactly `len(a) - commonPrefixLength(a, b)` backspaces and types
/// exactly `len(b) - commonPrefixLength(a, b)` characters, and presses
/// enter never.
pub proof fn lemma_minimal_edit_counts(a: Seq<char>, b: Seq<char>)
    ensures
        count_backspaces(edit_ops(a, b)) == a.len() - common_prefix_len(a, b),
        count_typed(edit_ops(a, b)) == b.len() - common_prefix_len(a, b),
        count_enters(edit_ops(a, b)) == 0,
{
    let l = common_prefix_len(a, b) as int;
    lemma_common_prefix_len_properties(a, b);
    lemma_counts_backspace_ops(a.len() - l);
    lemma_counts_type_ops(b.skip(l));
    lemma_counts_concat(backspace_ops(a.len() - l), type_ops(b.skip(l)));
}

/// When each transcript extends the previous one, the synchronizer never
/// issues a backspace: the edit script types the appended suffix only.
pub proof fn lemma_extension_never_backspaces(a: Seq<char>, b: Seq<char>)
    requires
        a.is_prefix_of(b),
    ensures
        edit_ops(a, b) == type_ops(b.skip(a.len() as int)),
        count_backspaces(edit_ops(a, b)) == 0,
{
    assert(forall|i: int| 0 <= i < a.len() ==> a[i] == b[i]);
    lemma_common_prefix_len_unique(a, b, a.len() as int);
    assert(edit_ops(a, b) =~= type_ops(b.skip(a.len() as int)));
    lemma_counts_type_ops(b.skip(a.len() as int));
}

/// Over a whole run of updates in which each transcript extends the
/// previous one, no edit script ever contains a backspace.
pub proof fn lemma_extension_chain_never_backspaces(texts: Seq<Seq<char>>)
    requires
        forall|i: int| 0 <= i < texts.len() - 1 ==> (#[trigger] texts[i]).is_prefix_of(
            texts[i + 1],
        ),
    ensures
        forall|i: int|
            0 <= i < texts.len() - 1 ==> count_backspaces(
                #[trigger] edit_ops(texts[i], texts[i + 1]),
            ) == 0,
{
    assert forall|i: int|
        0 <= i < texts.len() - 1 implies count_backspaces(
        #[trigger] edit_ops(texts[i], texts[i + 1]),
    ) == 0 by {
        lemma_extension_never_backspaces(texts[i], texts[i + 1]);
    }
}

/// An update to the empty transcript after tracked text `t` issues
/// exactly `len(t)` backspaces and types nothing.
pub proof fn lemma_clear_backspaces_everything(t: Seq<char>)
    ensures
        edit_ops(t, Seq::<char>::empty()) == backspace_ops(t.len() as int),
        count_backspaces(edit_ops(t, Seq::<char>::empty())) == t.len(),
        count_typed(edit_ops(t, Seq::<char>::empty())) == 0,
{
    let e = Seq::<char>::empty();
    assert(common_prefix_len(t, e) == 0);
    assert(e.skip(0) =~= e);
    assert(edit_ops(t, e) =~= backspace_ops(t.len() as int));
    lemma_counts_backspace_ops(t.len() as int);
}

// ---------------------------------------------------------------------
// Replaying operations on a simulated screen.
// ---------------------------------------------------------------------

/// The Unicode scalar values of the characters of `s`.
pub open spec fn char_codes(s: Seq<char>) -> Seq<u32>
    decreases s.len(),
{
    if s.len() == 0 {
        Seq::empty()
    } else {
        char_codes(s.drop_last()).push(s.last() as u32)
    }
}

/// `char_codes` maps each character to its scalar value.
pub proof fn lemma_char_codes_properties(s: Seq<char>)
    ensures
        char_codes(s).len() == s.len(),
        forall|i: int| 0 <= i < s.len() ==> char_codes(s)[i] == s[i] as u32,
    decreases s.len(),
{
    if s.len() > 0 {
        lemma_char_codes_properties(s.drop_last());
    }
}

/// The screen contents after replaying `ops` on a screen showing
/// `screen`: typing appends, backspace removes the last character (of a
/// non-empty screen), enter leaves the text alone.
pub open spec fn apply_ops(screen: Seq<u32>, ops: Seq<KeyOp>) -> Seq<u32>
    decreases ops.len(),
{
    if ops.len() == 0 {
        screen
    } else {
        let prev = apply_ops(screen, ops.drop_last());
        match ops.last() {
            KeyOp::Char(u) => prev.push(u),
            KeyOp::Backspace => if prev.len() > 0 {
                prev.drop_last()
            } else {
                prev
            },
            KeyOp::Enter => prev,
        }
    }
}

/// Replaying a concatenation replays the parts in order.
pub proof fn lemma_apply_ops_concat(screen: Seq<u32>, x: Seq<KeyOp>, y: Seq<KeyOp>)
    ensures
        apply_ops(screen, x + y) == apply_ops(apply_ops(screen, x), y),
    decreases y.len(),
{
    if y.len() == 0 {
        assert(x + y =~= x);
    } else {
        lemma_apply_ops_concat(screen, x, y.drop_last());
        assert((x + y).drop_last() =~= x + y.drop_last());
        assert((x + y).last() == y.last());
    }
}

/// `n` backspaces remove exactly the last `n` characters.
pub proof fn lemma_apply_backspaces(screen: Seq<u32>, n: int)
    requires
        0 <= n <= screen.len(),
    ensures
        apply_ops(screen, backspace_ops(n)) == screen.take(screen.len() - n),
    decreases n,
{
    if n == 0 {
        assert(screen.take(screen.len() as int) =~= screen);
    } else {
        lemma_apply_backspaces(screen, n - 1);
        assert(backspace_ops(n).drop_last() =~= backspace_ops(n - 1));
        assert(backspace_ops(n).last() == KeyOp::Backspace);
        assert(screen.take(screen.len() - n + 1).drop_last() =~= screen.take(screen.len() - n));
    }
}

/// Typing a text appends its scalar values to the screen.
pub proof fn lemma_apply_type_ops(screen: Seq<u32>, t: Seq<char>)
    ensures
        apply_ops(screen, type_ops(t)) == screen + char_codes(t),
    decreases t.len(),
{
    if t.len() == 0 {
        assert(screen + char_codes(t) =~= screen);
    } else {
        lemma_apply_type_ops(screen, t.drop_last());
        assert(type_ops(t).drop_last() =~= type_ops(t.drop_last()));
        assert((screen + char_codes(t.drop_last())).push(t.last() as u32) =~= screen + char_codes(
            t,
        ));
    }
}

/// Replaying the edit script for a change from `a` to `b` on a screen
/// showing `a` leaves the screen showing `b`: the synchronizer never
/// backspaces a character it did not itself cause to be typed, and the
/// on-screen text always equals the latest transcript.
pub proof fn lemma_edit_ops_reproduce_transcript(a: Seq<char>, b: Seq<char>)
    ensures
        apply_ops(char_codes(a), edit_ops(a, b)) == char_codes(b),
{
    let l = common_prefix_len(a, b) as int;
    lemma_common_prefix_len_properties(a, b);
    lemma_char_codes_properties(a);
    lemma_char_codes_properties(b);
    lemma_char_codes_properties(b.skip(l));
    lemma_apply_ops_concat(char_codes(a), backspace_ops(a.len() - l), type_ops(b.skip(l)));
    lemma_apply_backspaces(char_codes(a), a.len() - l);
    lemma_apply_type_ops(char_codes(a).take(l), b.skip(l));
    assert(char_codes(a).take(l) + char_codes(b.skip(l)) =~= char_codes(b));
}

/// Hardware abstraction trait for keyboard operations.
///
/// `ops()` is the abstract log of the operations performed so far; each
/// method appends exactly what it performed.  A failing operation is not
/// recorded, but a failing `type_text` may have typed a prefix of its
/// argument before the failure.
pub trait KeyboardHardware: Sized {
    /// The abstract log of key operations performed so far.
    spec fn ops(&self) -> Seq<KeyOp>;

    /// Whether this hardware can fail at all: the operations of an
    /// infallible hardware always return `Ok`.
    spec fn infallible(&self) -> bool;

    /// Type every character of `text`, in order.
    fn type_text(&mut self, text: &str) -> (r: Result<(), HardwareError>)
        ensures
            r is Ok ==> final(self).ops() == old(self).ops() + type_ops(text@),
            r is Err ==> exists|n: int|
                0 <= n <= text@.len() && final(self).ops() == old(self).ops() + type_ops(
                    text@.take(n),
                ),
            old(self).infallible() ==> r is Ok,
            final(self).infallible() == old(self).infallible(),
    ;

    /// Press and release backspace once.
    fn press_backspace(&mut self) -> (r: Result<(), HardwareError>)
        ensures
            r is Ok ==> final(self).ops() == old(self).ops().push(KeyOp::Backspace),
            r is Err ==> final(self).ops() == old(self).ops(),
            old(self).infallible() ==> r is Ok,
            final(self).infallible() == old(self).infallible(),
    ;

    /// Press and release enter once.
    fn press_enter(&mut self) -> (r: Result<(), HardwareError>)
        ensures
            r is Ok ==> final(self).ops() == old(self).ops().push(KeyOp::Enter),
            r is Err ==> final(self).ops() == old(self).ops(),
            old(self).infallible() ==> r is Ok,
            final(self).infallible() == old(self).infallible(),
    ;

    /// Press and release one raw key code.  Raw presses are below the
    /// abstraction of this log and do not change it.
    fn press_key(&mut self, keycode: u16) -> (r: Result<(), HardwareError>)
        ensures
            final(self).ops() == old(self).ops(),
            old(self).infallible() ==> r is Ok,
            final(self).infallible() == old(self).infallible(),
    ;
}

// ---------------------------------------------------------------------
// Character classes for the trailing "enter" command.
//
// The synchronizer recognizes the spoken word "enter" as a whole word at
// the end of the transcript, optionally preceded by whitespace and
// followed by a run of punctuation and/or whitespace.  "Whitespace" is
// the Unicode White_Space property, "punctuation" is the ASCII POSIX
// punctuation class, and the word characters deciding the word boundary
// are the Unicode word characters (named below, computed by an outside
// table).
// ---------------------------------------------------------------------

/// A character with the Unicode White_Space property.
pub open spec fn is_whitespace_char(c: char) -> bool {
    ('\t' <= c && c <= '\r') || c == ' ' || c == '\u{85}' || c == '\u{a0}' || c == '\u{1680}'
        || ('\u{2000}' <= c && c <= '\u{200a}') || c == '\u{2028}' || c == '\u{2029}' || c
        == '\u{202f}' || c == '\u{205f}' || c == '\u{3000}'
}

/// ASCII punctuation: `!`..`/`, `:`..`@`, `[`..`` ` ``, `{`..`~`.
pub open spec fn is_punct_char(c: char) -> bool {
    ('!' <= c && c <= '/') || (':' <= c && c <= '@') || ('[' <= c && c <= '`') || ('{' <= c && c
        <= '~')
}

/// A Unicode word character: the class that decides the word boundaries
/// around the spoken command.  The full table is the outside crate's;
/// `char_is_word` computes it.
pub uninterp spec fn is_word_char(c: char) -> bool;

/// A character that may trail the "enter" command: punctuation or
/// whitespace.
pub open spec fn is_trailer_char(c: char) -> bool {
    is_whitespace_char(c) || is_punct_char(c)
}

/// The start of the maximal run of punctuation/whitespace characters at
/// the end of `s` (equals `s.len()` when the run is empty).
pub open spec fn trailer_start(s: Seq<char>) -> int
    decreases s.len(),
{
    if s.len() == 0 {
        0
    } else if is_trailer_char(s.last()) {
        trailer_start(s.drop_last())
    } else {
        s.len() as int
    }
}

/// The start of the maximal run of whitespace characters that ends just
/// before position `j` of `s` (equals `j` when the run is empty).
pub open spec fn space_run_start(s: Seq<char>, j: int) -> int
    recommends
        0 <= j <= s.len(),
    decreases j,
{
    if j <= 0 {
        0
    } else if is_whitespace_char(s[j - 1]) {
        space_run_start(s, j - 1)
    } else {
        j
    }
}

/// The five characters of the word "enter", case-insensitively.
pub open spec fn is_enter_word(t: Seq<char>) -> bool {
    &&& t.len() == 5
    &&& (t[0] == 'e' || t[0] == 'E')
    &&& (t[1] == 'n' || t[1] == 'N')
    &&& (t[2] == 't' || t[2] == 'T')
    &&& (t[3] == 'e' || t[3] == 'E')
    &&& (t[4] == 'r' || t[4] == 'R')
}

/// The transcript ends with the whole word "enter" (case-insensitive),
/// optionally followed by a run of punctuation and/or whitespace.
pub open spec fn has_enter_command(s: Seq<char>) -> bool {
    let j = trailer_start(s);
    &&& j >= 5
    &&& is_enter_word(s.subrange(j - 5, j))
    &&& (j - 5 == 0 || !is_word_char(s[j - 6]))
    &&& (j == s.len() || !is_word_char(s[j]))
}

/// Where the matched trailing "enter" command begins: the word itself
/// plus any whitespace run immediately before it.
pub open spec fn enter_match_start(s: Seq<char>) -> int
    recommends
        has_enter_command(s),
{
    space_run_start(s, trailer_start(s) - 5)
}

/// The operations that a finalization of tracked text `s` performs:
/// backspace over the matched "enter" command, then press enter; nothing
/// when there is no trailing "enter" command.
pub open spec fn finalize_ops(s: Seq<char>) -> Seq<KeyOp> {
    if has_enter_command(s) {
        backspace_ops(s.len() - enter_match_start(s)) + seq![KeyOp::Enter]
    } else {
        Seq::empty()
    }
}

/// `trailer_start` stays within the bounds of the text.
pub proof fn lemma_trailer_start_bounds(s: Seq<char>)
    ensures
        0 <= trailer_start(s) <= s.len(),
    decreases s.len(),
{
    if s.len() > 0 && is_trailer_char(s.last()) {
        lemma_trailer_start_bounds(s.drop_last());
    }
}

/// `space_run_start` stays within `0..=j`.
pub proof fn lemma_space_run_start_bounds(s: Seq<char>, j: int)
    requires
        0 <= j <= s.len(),
    ensures
        0 <= space_run_start(s, j) <= j,
    decreases j,
{
    if j > 0 && is_whitespace_char(s[j - 1]) {
        lemma_space_run_start_bounds(s, j - 1);
    }
}

/// A finalization with a trailing "enter" command issues one backspace
/// per character of the matched portion followed by exactly one enter
/// and types nothing; without a command it issues no operation at all.
pub proof fn lemma_finalize_ops_counts(s: Seq<char>)
    ensures
        has_enter_command(s) ==> count_backspaces(finalize_ops(s)) == s.len() - enter_match_start(
            s,
        ) && count_enters(finalize_ops(s)) == 1 && count_typed(finalize_ops(s)) == 0,
        !has_enter_command(s) ==> finalize_ops(s) == Seq::<KeyOp>::empty(),
{
    if has_enter_command(s) {
        lemma_trailer_start_bounds(s);
        lemma_space_run_start_bounds(s, trailer_start(s) - 5);
        let n = s.len() - enter_match_start(s);
        lemma_counts_concat(backspace_ops(n), seq![KeyOp::Enter]);
        lemma_counts_backspace_ops(n);
        assert(seq![KeyOp::Enter].drop_last() =~= Seq::<KeyOp>::empty());
        assert(seq![KeyOp::Enter].last() == KeyOp::Enter);
        assert(count_backspaces(Seq::<KeyOp>::empty()) == 0);
        assert(count_typed(Seq::<KeyOp>::empty()) == 0);
        assert(count_enters(Seq::<KeyOp>::empty()) == 0);
        assert(count_backspaces(seq![KeyOp::Enter]) == 0);
        assert(count_typed(seq![KeyOp::Enter]) == 0);
        assert(count_enters(seq![KeyOp::Enter]) == 1);
    }
}

/// Any position `j` with only trailer characters after it and a
/// non-trailer character (or nothing) before it is `trailer_start`.
pub proof fn lemma_trailer_start_unique(s: Seq<char>, j: int)
    requires
        0 <= j <= s.len(),
        forall|i: int| j <= i < s.len() ==> is_trailer_char(s[i]),
        j == 0 || !is_trailer_char(s[j - 1]),
    ensures
        trailer_start(s) == j,
    decreases s.len(),
{
    if s.len() == 0 {
    } else if is_trailer_char(s.last()) {
        assert(j < s.len() || j == s.len());
        if j == s.len() {
            assert(!is_trailer_char(s[j - 1]));
            assert(is_trailer_char(s[s.len() - 1]));
            assert(false);
        }
        assert(forall|i: int| j <= i < s.len() - 1 ==> s.drop_last()[i] == s[i]);
        lemma_trailer_start_unique(s.drop_last(), j);
    } else {
        if j < s.len() {
            assert(is_trailer_char(s[s.len() - 1]));
            assert(false);
        }
    }
}

/// Any position `p` with only whitespace between it and `j` and a
/// non-whitespace character (or nothing) before it is `space_run_start`.
pub proof fn lemma_space_run_start_unique(s: Seq<char>, j: int, p: int)
    requires
        0 <= p <= j <= s.len(),
        forall|i: int| p <= i < j ==> is_whitespace_char(s[i]),
        p == 0 || !is_whitespace_char(s[p - 1]),
    ensures
        space_run_start(s, j) == p,
    decreases j,
{
    if j > p {
        assert(is_whitespace_char(s[j - 1]));
        lemma_space_run_start_unique(s, j - 1, p);
    }
}

// ---------------------------------------------------------------------
// Executable character-class checks.
// ---------------------------------------------------------------------

/// Executable check for [`is_whitespace_char`].
pub fn char_is_whitespace(c: char) -> (r: bool)
    ensures
        r == is_whitespace_char(c),
{
    ('\t' <= c && c <= '\r') || c == ' ' || c == '\u{85}' || c == '\u{a0}' || c == '\u{1680}'
        || ('\u{2000}' <= c && c <= '\u{200a}') || c == '\u{2028}' || c == '\u{2029}' || c
        == '\u{202f}' || c == '\u{205f}' || c == '\u{3000}'
}

/// Executable check for [`is_punct_char`].
pub fn char_is_punct(c: char) -> (r: bool)
    ensures
        r == is_punct_char(c),
{
    ('!' <= c && c <= '/') || (':' <= c && c <= '@') || ('[' <= c && c <= '`') || ('{' <= c && c
        <= '~')
}

/// Relies on `regex_syntax::is_word_character`: whether `c` is a
/// Unicode word character, a function of the character alone (it panics
/// only when the crate's Unicode tables are compiled out, and the
/// default features keep them in).
#[verifier::external_body]
pub(crate) fn char_is_word(c: char) -> (r: bool)
    ensures
        r == is_word_char(c),
{
    regex_syntax::is_word_character(c)
}

/// Executable check for [`is_trailer_char`].
pub fn char_is_trailer(c: char) -> (r: bool)
    ensures
        r == is_trailer_char(c),
{
    char_is_whitespace(c) || char_is_punct(c)
}

/// Whether the characters of `x` and `y` at position `i` are equal.
fn nth_char_eq(x: &str, y: &str, i: usize) -> (r: bool)
    requires
        i < x@.len(),
        i < y@.len(),
    ensures
        r == (x@[i as int] == y@[i as int]),
{
    x.get_char(i) == y.get_char(i)
}

/// Business logic layer that handles transcript processing and enter
/// command detection.
pub struct VirtualKeyboard<H: KeyboardHardware> {
    pub hardware: H,
    current_text: String,
}

impl<H: KeyboardHardware> VirtualKeyboard<H> {
    /// The text this synchronizer believes is currently rendered.
    pub closed spec fn tracked_text(&self) -> Seq<char> {
        self.current_text@
    }

    /// The operation log of the underlying hardware.
    pub closed spec fn hardware_ops(&self) -> Seq<KeyOp> {
        self.hardware.ops()
    }

    /// Whether the underlying hardware can fail at all.
    pub closed spec fn hardware_infallible(&self) -> bool {
        self.hardware.infallible()
    }

    pub fn new(hardware: H) -> (r: Self)
        ensures
            r.tracked_text() == Seq::<char>::empty(),
            r.hardware_ops() == hardware.ops(),
            r.hardware_infallible() == hardware.infallible(),
    {
        Self { hardware, current_text: String::new() }
    }

    /// Update the transcript incrementally, handling smart backspacing.
    ///
    /// The tracked text and the new transcript are compared character by
    /// character; only the characters after their common prefix are
    /// backspaced, and only the new transcript's characters after that
    /// prefix are typed.  An empty transcript clears everything and a
    /// pure extension types only the appended suffix: both are the
    /// general rule with an empty typed part or an empty backspaced
    /// part.
    ///
    /// On a hardware failure the remainder of the update is aborted: the
    /// tracked text keeps its old value while the hardware has performed
    /// some prefix of the edit script.
    #[verifier::loop_isolation(false)]
    pub fn update_transcript(&mut self, new_transcript: &str) -> (r: Result<(), HardwareError>)
        ensures
            r is Ok ==> final(self).tracked_text() == new_transcript@ && final(self).hardware_ops()
                == old(self).hardware_ops() + edit_ops(old(self).tracked_text(), new_transcript@),
            r is Err ==> final(self).tracked_text() == old(self).tracked_text()
                && performed_prefix(
                old(self).hardware_ops(),
                final(self).hardware_ops(),
                edit_ops(old(self).tracked_text(), new_transcript@),
            ),
            old(self).tracked_text() == new_transcript@ ==> r is Ok,
            old(self).hardware_infallible() ==> r is Ok,
            final(self).hardware_infallible() == old(self).hardware_infallible(),
    {
        let ghost a = self.current_text@;
        let ghost b = new_transcript@;
        let ghost base = self.hardware.ops();

        let old_len = self.current_text.as_str().unicode_len();
        let new_len = new_transcript.unicode_len();

        // Length of the common prefix, compared character by character
        // (not byte by byte, to remain correct under multi-byte
        // characters).
        let mut l: usize = 0;
        while l < old_len && l < new_len && nth_char_eq(self.current_text.as_str(), new_transcript, l)
            invariant
                a == self.current_text@,
                b == new_transcript@,
                old_len == a.len(),
                new_len == b.len(),
                0 <= l <= old_len,
                l <= new_len,
                forall|j: int| 0 <= j < l ==> a[j] == b[j],
            decreases old_len - l,
        {
            l = l + 1;
        }
        proof {
            lemma_common_prefix_len_unique(a, b, l as int);
        }

        // Backspace only the characters that differ.
        let to_backspace = old_len - l;
        let mut done: usize = 0;
        while done < to_backspace
            invariant
                a == self.current_text@,
                b == new_transcript@,
                old_len == a.len(),
                new_len == b.len(),
                l as int == common_prefix_len(a, b),
                to_backspace == old_len - l,
                0 <= done <= to_backspace,
                self.hardware.ops() == base + backspace_ops(done as int),
                self.hardware.infallible() == old(self).hardware.infallible(),
            decreases to_backspace - done,
        {
            match self.hardware.press_backspace() {
                Ok(_) => {},
                Err(e) => {
                    proof {
                        if a == b {
                            lemma_common_prefix_len_unique(a, b, a.len() as int);
                        }
                        lemma_take_from_backspace_run(
                            type_ops(b.skip(l as int)),
                            to_backspace as int,
                            done as int,
                        );
                        lemma_type_ops_properties(b.skip(l as int));
                        lemma_backspace_ops_properties(to_backspace as int);
                        assert(edit_ops(a, b) == backspace_ops(to_backspace as int) + type_ops(
                            b.skip(l as int),
                        ));
                        assert(self.hardware.ops() == base + edit_ops(a, b).take(done as int));
                        assert(done as int <= edit_ops(a, b).len());
                        lemma_performed_prefix_intro(
                            base,
                            self.hardware.ops(),
                            edit_ops(a, b),
                            done as int,
                        );
                    }
                    return Err(e);
                },
            }
            proof {
                assert(backspace_ops(done as int).push(KeyOp::Backspace) == backspace_ops(
                    done + 1,
                ));
            }
            done = done + 1;
        }

        // Type the new ending: everything after the common prefix.
        if l < new_len {
            let ghost mid = self.hardware.ops();
            let suffix = new_transcript.substring_char(l, new_len);
            match self.hardware.type_text(suffix) {
                Ok(_) => {},
                Err(e) => {
                    proof {
                        if a == b {
                            lemma_common_prefix_len_unique(a, b, a.len() as int);
                        }
                        let m = choose|m: int|
                            0 <= m <= suffix@.len() && self.hardware.ops() == mid + type_ops(
                                suffix@.take(m),
                            );
                        lemma_edit_ops_take_typed(a, b, m);
                        assert(self.hardware.ops() == base + edit_ops(a, b).take(
                            to_backspace + m,
                        ));
                        lemma_common_prefix_len_properties(a, b);
                        lemma_backspace_ops_properties(to_backspace as int);
                        lemma_type_ops_properties(b.skip(l as int));
                    }
                    return Err(e);
                },
            }
            proof {
                assert(self.hardware.ops() == base + (backspace_ops(to_backspace as int)
                    + type_ops(b.skip(l as int))));
            }
        } else {
            proof {
                assert(b.skip(l as int) =~= Seq::<char>::empty());
                assert(edit_ops(a, b) =~= backspace_ops(to_backspace as int));
            }
        }
        let updated = new_transcript.to_owned();
        self.current_text = updated;
        Ok(())
    }

    /// Finalize the current transcript.
    ///
    /// If the tracked text ends with the whole word "enter"
    /// (case-insensitive, with optional whitespace before it and
    /// optional punctuation/whitespace after it), backspace that matched
    /// portion and press the enter key.  Either way the tracked text is
    /// cleared: a new turn starts fresh.
    ///
    /// On a hardware failure the remainder is aborted; the hardware has
    /// performed some prefix of the finalization script and the tracked
    /// text is either unchanged or already truncated to the part before
    /// the match.
    #[verifier::loop_isolation(false)]
    pub fn finalize_transcript(&mut self) -> (r: Result<(), HardwareError>)
        ensures
            r is Ok ==> final(self).tracked_text() == Seq::<char>::empty()
                && final(self).hardware_ops() == old(self).hardware_ops() + finalize_ops(
                old(self).tracked_text(),
            ),
            r is Err ==> ({
                let s = old(self).tracked_text();
                &&& has_enter_command(s)
                &&& (final(self).tracked_text() == s || final(self).tracked_text() == s.take(
                    enter_match_start(s),
                ))
                &&& performed_prefix(
                    old(self).hardware_ops(),
                    final(self).hardware_ops(),
                    finalize_ops(s),
                )
            }),
            !has_enter_command(old(self).tracked_text()) ==> r is Ok,
            old(self).hardware_infallible() ==> r is Ok,
            final(self).hardware_infallible() == old(self).hardware_infallible(),
    {
        let ghost s = self.current_text@;
        let ghost base = self.hardware.ops();
        let n = self.current_text.as_str().unicode_len();

        // Find the start of the trailing punctuation/whitespace run.
        let mut j: usize = n;
        while j > 0 && char_is_trailer(self.current_text.as_str().get_char(j - 1))
            invariant
                s == self.current_text@,
                n == s.len(),
                0 <= j <= n,
                forall|i: int| j <= i < n ==> is_trailer_char(s[i]),
            decreases j,
        {
            j = j - 1;
        }
        proof {
            lemma_trailer_start_unique(s, j as int);
        }

        // Check for the whole word "enter" ending right before the run.
        let mut matched = false;
        if j >= 5 {
            let c0 = self.current_text.as_str().get_char(j - 5);
            let c1 = self.current_text.as_str().get_char(j - 4);
            let c2 = self.current_text.as_str().get_char(j - 3);
            let c3 = self.current_text.as_str().get_char(j - 2);
            let c4 = self.current_text.as_str().get_char(j - 1);
            matched = (c0 == 'e' || c0 == 'E') && (c1 == 'n' || c1 == 'N') && (c2 == 't' || c2
                == 'T') && (c3 == 'e' || c3 == 'E') && (c4 == 'r' || c4 == 'R');
            if matched && j >= 6 {
                if char_is_word(self.current_text.as_str().get_char(j - 6)) {
                    matched = false;
                }
            }
            if matched && j < n {
                if char_is_word(self.current_text.as_str().get_char(j)) {
                    matched = false;
                }
            }
        }
        proof {
            if j >= 5 {
                assert(s.subrange(j - 5, j as int).len() == 5);
                assert(forall|k: int|
                    0 <= k < 5 ==> #[trigger] s.subrange(j - 5, j as int)[k] == s[j - 5 + k]);
            }
            assert(matched == has_enter_command(s));
        }

        if matched {
            // The match begins at the whitespace run before the word.
            let mut p: usize = j - 5;
            while p > 0 && char_is_whitespace(self.current_text.as_str().get_char(p - 1))
                invariant
                    s == self.current_text@,
                    n == s.len(),
                    j as int == trailer_start(s),
                    0 <= p <= j - 5,
                    j >= 5,
                    forall|i: int| p <= i < j - 5 ==> is_whitespace_char(s[i]),
                decreases p,
            {
                p = p - 1;
            }
            proof {
                lemma_space_run_start_unique(s, j - 5, p as int);
            }

            // Backspace the matched portion.
            let to_backspace = n - p;
            let mut done: usize = 0;
            while done < to_backspace
                invariant
                    s == self.current_text@,
                    n == s.len(),
                    has_enter_command(s),
                    p as int == enter_match_start(s),
                    to_backspace == n - p,
                    0 <= done <= to_backspace,
                    self.hardware.ops() == base + backspace_ops(done as int),
                    self.hardware.infallible() == old(self).hardware.infallible(),
                decreases to_backspace - done,
            {
                match self.hardware.press_backspace() {
                    Ok(_) => {},
                    Err(e) => {
                        proof {
                            lemma_take_from_backspace_run(
                                seq![KeyOp::Enter],
                                to_backspace as int,
                                done as int,
                            );
                            lemma_backspace_ops_properties(to_backspace as int);
                            assert(finalize_ops(s) == backspace_ops(to_backspace as int) + seq![
                                KeyOp::Enter,
                            ]);
                            assert(self.hardware.ops() == base + finalize_ops(s).take(
                                done as int,
                            ));
                            assert(done as int <= finalize_ops(s).len());
                            lemma_performed_prefix_intro(
                                base,
                                self.hardware.ops(),
                                finalize_ops(s),
                                done as int,
                            );
                        }
                        return Err(e);
                    },
                }
                proof {
                    assert(backspace_ops(done as int).push(KeyOp::Backspace) == backspace_ops(
                        done + 1,
                    ));
                }
                done = done + 1;
            }

            // Update the tracking to remove the backspaced characters.
            let prefix = self.current_text.as_str().substring_char(0, p).to_owned();
            self.current_text = prefix;

            // Press the actual enter key.
            match self.hardware.press_enter() {
                Ok(_) => {},
                Err(e) => {
                    proof {
                        lemma_take_from_backspace_run(
                            seq![KeyOp::Enter],
                            to_backspace as int,
                            to_backspace as int,
                        );
                        lemma_backspace_ops_properties(to_backspace as int);
                        assert(finalize_ops(s) == backspace_ops(to_backspace as int) + seq![
                            KeyOp::Enter,
                        ]);
                        assert(self.hardware.ops() == base + finalize_ops(s).take(
                            to_backspace as int,
                        ));
                        assert(to_backspace as int <= finalize_ops(s).len());
                        lemma_performed_prefix_intro(
                            base,
                            self.hardware.ops(),
                            finalize_ops(s),
                            to_backspace as int,
                        );
                        assert(self.current_text@ =~= s.take(p as int));
                    }
                    return Err(e);
                },
            }
            proof {
                assert(backspace_ops(to_backspace as int).push(KeyOp::Enter) =~= backspace_ops(
                    to_backspace as int,
                ) + seq![KeyOp::Enter]);
                assert(finalize_ops(s) == backspace_ops(to_backspace as int) + seq![KeyOp::Enter]);
                assert(self.hardware.ops() == base + finalize_ops(s));
            }
        } else {
            proof {
                assert(base + finalize_ops(s) =~= base);
            }
        }

        // Clear the current text tracking.
        self.current_text = String::new();
        Ok(())
    }

    /// Get the current text that has been typed.
    pub fn get_current_text(&self) -> (r: &str)
        ensures
            r@ == self.tracked_text(),
    {
        self.current_text.as_str()
    }
}

/// Mock hardware implementation for testing: records what was typed on a
/// simulated screen together with operation counts.
pub struct MockKeyboardHardware {
    pub typed_chars: Vec<char>,
    pub backspace_count: usize,
    pub enter_pressed: bool,
    pub log: Ghost<Seq<KeyOp>>,
}

impl MockKeyboardHardware {
    pub fn new() -> (r: Self)
        ensures
            r.typed_chars@ == Seq::<char>::empty(),
            r.backspace_count == 0,
            !r.enter_pressed,
            r.ops() == Seq::<KeyOp>::empty(),
    {
        Self {
            typed_chars: Vec::new(),
            backspace_count: 0,
            enter_pressed: false,
            log: Ghost(Seq::empty()),
        }
    }
}

impl KeyboardHardware for MockKeyboardHardware {
    open spec fn ops(&self) -> Seq<KeyOp> {
        self.log@
    }

    open spec fn infallible(&self) -> bool {
        true
    }

    fn type_text(&mut self, text: &str) -> (r: Result<(), HardwareError>)
        ensures
            r is Ok,
            final(self).typed_chars@ == old(self).typed_chars@ + text@,
            final(self).backspace_count == old(self).backspace_count,
            final(self).enter_pressed == old(self).enter_pressed,
    {
        let ghost entry_log = self.log@;
        let ghost entry_typed = self.typed_chars@;
        let n = text.unicode_len();
        proof {
            assert(text@.take(0) =~= Seq::<char>::empty());
            assert(self.log@ =~= entry_log + type_ops(text@.take(0)));
            assert(self.typed_chars@ =~= entry_typed + text@.take(0));
        }
        let mut i: usize = 0;
        while i < n
            invariant
                n == text@.len(),
                0 <= i <= n,
                self.log@ == entry_log + type_ops(text@.take(i as int)),
                self.typed_chars@ == entry_typed + text@.take(i as int),
                self.backspace_count == old(self).backspace_count,
                self.enter_pressed == old(self).enter_pressed,
            decreases n - i,
        {
            let c = text.get_char(i);
            self.typed_chars.push(c);
            self.log = Ghost(self.log@.push(KeyOp::Char(c as u32)));
            proof {
                assert(text@.take(i + 1) =~= text@.take(i as int).push(text@[i as int]));
                lemma_type_ops_push(text@.take(i as int), text@[i as int]);
                assert(self.typed_chars@ =~= entry_typed + text@.take(i + 1));
            }
            i = i + 1;
        }
        proof {
            assert(text@.take(n as int) =~= text@);
        }
        Ok(())
    }

    fn press_backspace(&mut self) -> (r: Result<(), HardwareError>)
        ensures
            r is Ok,
            old(self).backspace_count < usize::MAX ==> final(self).backspace_count == old(
                self,
            ).backspace_count + 1,
            final(self).typed_chars@ == (if old(self).typed_chars@.len() > 0 {
                old(self).typed_chars@.drop_last()
            } else {
                old(self).typed_chars@
            }),
            final(self).enter_pressed == old(self).enter_pressed,
    {
        if self.backspace_count < usize::MAX {
            self.backspace_count = self.backspace_count + 1;
        }
        if self.typed_chars.len() > 0 {
            self.typed_chars.pop();
        }
        self.log = Ghost(self.log@.push(KeyOp::Backspace));
        Ok(())
    }

    fn press_enter(&mut self) -> (r: Result<(), HardwareError>)
        ensures
            r is Ok,
            final(self).enter_pressed,
            final(self).typed_chars@ == old(self).typed_chars@,
            final(self).backspace_count == old(self).backspace_count,
    {
        self.enter_pressed = true;
        self.log = Ghost(self.log@.push(KeyOp::Enter));
        Ok(())
    }

    fn press_key(&mut self, _keycode: u16) -> (r: Result<(), HardwareError>)
        ensures
            r is Ok,
            *final(self) == *old(self),
    {
        Ok(())
    }
}

} // verus!
