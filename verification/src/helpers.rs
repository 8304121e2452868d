//! Identifier formatting and error-chain rendering.
//!
//! `format_snake_case` inserts underscores at lowercase-to-uppercase
//! boundaries and lowercases ASCII capitals, keeping runs of consecutive
//! capitals (acronyms) as one segment.

use vstd::prelude::*;
use vstd::string::*;
use crate::strings::{join_seqs, join_strings, push_char, str_to_chars};

verus! {

/// Whether `c` is an ASCII capital letter.
pub open spec fn is_ascii_upper(c: char) -> bool {
    'A' <= c && c <= 'Z'
}

/// Whether `c` is an ASCII small letter.
pub open spec fn is_ascii_lower(c: char) -> bool {
    'a' <= c && c <= 'z'
}

/// `c` with an ASCII capital lowered, other characters unchanged.
pub open spec fn ascii_lower_char(c: char) -> char {
    if is_ascii_upper(c) {
        (((c as u32) + 32) as u8) as char
    } else {
        c
    }
}

/// Whether the capital at position `i` of `s` starts a new segment and so
/// gets an underscore before it: it is not the first character, does not
/// follow an underscore, and either follows a small letter or ends a
/// capital run right before a small letter (so acronyms stay one segment,
/// and the word after an acronym starts its own).
pub open spec fn segment_break(s: Seq<char>, i: int) -> bool {
    &&& is_ascii_upper(s[i])
    &&& 0 < i
    &&& s[i - 1] != '_'
    &&& (!is_ascii_upper(s[i - 1]) || (i + 1 < s.len() && is_ascii_lower(s[i + 1])))
}

/// What the character at position `i` of `s` contributes to the snake-case
/// rendering.
pub open spec fn snake_piece(s: Seq<char>, i: int) -> Seq<char> {
    if is_ascii_upper(s[i]) {
        if segment_break(s, i) {
            seq!['_', ascii_lower_char(s[i])]
        } else {
            seq![ascii_lower_char(s[i])]
        }
    } else {
        seq![s[i]]
    }
}

/// The snake-case rendering of the first `i` characters of `s`.
pub open spec fn snake_prefix(s: Seq<char>, i: int) -> Seq<char>
    decreases i,
{
    if i <= 0 {
        Seq::empty()
    } else {
        snake_prefix(s, i - 1) + snake_piece(s, i - 1)
    }
}

/// The snake-case rendering of an identifier.
pub open spec fn snake_case(s: Seq<char>) -> Seq<char> {
    snake_prefix(s, s.len() as int)
}

/// Every character of a snake-case rendering is outside the capitals.
proof fn lemma_snake_prefix_no_upper(s: Seq<char>, i: int)
    requires
        i <= s.len(),
    ensures
        forall|k: int|
            0 <= k < snake_prefix(s, i).len() ==> !is_ascii_upper(#[trigger] snake_prefix(s, i)[k]),
    decreases i,
{
    if i > 0 {
        lemma_snake_prefix_no_upper(s, i - 1);
        assert forall|k: int|
            0 <= k < snake_prefix(s, i).len() implies !is_ascii_upper(snake_prefix(s, i)[k]) by {
            let pre = snake_prefix(s, i - 1);
            if k < pre.len() {
                assert(snake_prefix(s, i)[k] == pre[k]);
            } else {
                assert(snake_prefix(s, i)[k] == snake_piece(s, i - 1)[k - pre.len()]);
            }
        }
    }
}

/// Text without capitals is left unchanged by snake-casing.
proof fn lemma_snake_prefix_fixed(s: Seq<char>, i: int)
    requires
        0 <= i <= s.len(),
        forall|k: int| 0 <= k < s.len() ==> !is_ascii_upper(#[trigger] s[k]),
    ensures
        snake_prefix(s, i) == s.take(i),
    decreases i,
{
    if i == 0 {
        assert(snake_prefix(s, i) =~= s.take(0));
    } else {
        lemma_snake_prefix_fixed(s, i - 1);
        assert(!is_ascii_upper(s[i - 1]));
        assert(snake_piece(s, i - 1) =~= seq![s[i - 1]]);
        assert(snake_prefix(s, i) =~= s.take(i));
    }
}

/// Snake-casing is idempotent: applying it to already snake-cased text
/// changes nothing.
pub proof fn lemma_snake_case_idempotent(s: Seq<char>)
    ensures
        snake_case(snake_case(s)) == snake_case(s),
{
    let once = snake_case(s);
    lemma_snake_prefix_no_upper(s, s.len() as int);
    lemma_snake_prefix_fixed(once, once.len() as int);
    assert(once.take(once.len() as int) =~= once);
}

/// `s` with every ASCII capital lowered.
pub open spec fn ascii_lower_seq(s: Seq<char>) -> Seq<char> {
    s.map_values(|c: char| ascii_lower_char(c))
}

/// Lowers every ASCII capital of `s`.
pub fn ascii_lowercase(s: &str) -> (r: String)
    ensures
        r@ == ascii_lower_seq(s@),
{
    let chars = str_to_chars(s);
    let mut lowered = String::new();
    let mut i: usize = 0;
    while i < chars.len()
        invariant
            chars@ == s@,
            i <= chars@.len(),
            lowered@ == ascii_lower_seq(s@.take(i as int)),
        decreases chars@.len() - i,
    {
        push_char(&mut lowered, lower_char(chars[i]));
        i = i + 1;
        assert(lowered@ =~= ascii_lower_seq(s@.take(i as int)));
    }
    proof {
        assert(s@.take(s@.len() as int) =~= s@);
    }
    lowered
}

/// ASCII capitals are outside the surrogate gap, so the lowering cast in
/// `ascii_lower_char` lands on the matching lowercase letter.
fn lower_char(c: char) -> (r: char)
    ensures
        r == ascii_lower_char(c),
{
    if 'A' <= c && c <= 'Z' {
        (((c as u32) + 32) as u8) as char
    } else {
        c
    }
}

/// The identifier `column_name` rendered in snake case: ASCII capitals are
/// lowered, a new segment opens where a capital follows a small letter or
/// where a capital run gives way to a small letter; characters outside the
/// ASCII letters pass through unchanged.
pub fn format_snake_case(column_name: &str) -> (r: String)
    ensures
        r@ == snake_case(column_name@),
{
    let chars = str_to_chars(column_name);
    let n = chars.len();
    let mut formatted_name = String::new();
    let mut i: usize = 0;
    while i < n
        invariant
            chars@ == column_name@,
            n == chars@.len(),
            i <= n,
            formatted_name@ == snake_prefix(chars@, i as int),
        decreases n - i,
    {
        let c = chars[i];
        if 'A' <= c && c <= 'Z' {
            let after_run_break = i + 1 < n && 'a' <= chars[i + 1] && chars[i + 1] <= 'z';
            let needs_underscore = i > 0 && chars[i - 1] != '_' && (!('A' <= chars[i - 1]
                && chars[i - 1] <= 'Z') || after_run_break);
            if needs_underscore {
                push_char(&mut formatted_name, '_');
            }
            push_char(&mut formatted_name, lower_char(c));
        } else {
            push_char(&mut formatted_name, c);
        }
        i = i + 1;
        assert(formatted_name@ =~= snake_prefix(chars@, i as int));
    }
    formatted_name
}

/// The causes of an error joined into one report: the head message first,
/// every later cause on its own line behind the nesting marker.
pub open spec fn error_chain_text(msgs: Seq<Seq<char>>) -> Seq<char> {
    join_seqs(
        Seq::new(
            msgs.len(),
            |i: int|
                if i == 0 {
                    msgs[i]
                } else {
                    "       \u{2514}> "@ + msgs[i]
                },
        ),
        "\n"@,
    )
}

/// One report line per cause message, later causes indented under the first.
pub fn format_error_chain(messages: &Vec<String>) -> (r: String)
    ensures
        r@ == error_chain_text(messages@.map_values(|m: String| m@)),
{
    let ghost msgs = messages@.map_values(|m: String| m@);
    let mut lines: Vec<String> = Vec::new();
    let mut i: usize = 0;
    while i < messages.len()
        invariant
            msgs == messages@.map_values(|m: String| m@),
            i <= messages@.len(),
            lines@.len() == i,
            forall|j: int|
                0 <= j < i ==> (#[trigger] lines@[j])@ == (if j == 0 {
                    msgs[j]
                } else {
                    "       \u{2514}> "@ + msgs[j]
                }),
        decreases messages@.len() - i,
    {
        if i == 0 {
            lines.push(messages[i].clone());
        } else {
            let mut line = String::new();
            line.append("       \u{2514}> ");
            line.append(messages[i].as_str());
            lines.push(line);
        }
        i = i + 1;
    }
    let r = join_strings(&lines, "\n");
    proof {
        assert(lines@.map_values(|p: String| p@) =~= Seq::new(
            msgs.len(),
            |i: int|
                if i == 0 {
                    msgs[i]
                } else {
                    "       \u{2514}> "@ + msgs[i]
                },
        ));
    }
    r
}

} // verus!
