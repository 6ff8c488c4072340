use super::command::Command;
use vstd::prelude::*;

verus! {

/// The program that a source text stands for: the commands of its command
/// characters, in the order of the text. Every other character is a comment.
pub open spec fn decode(source: Seq<char>) -> Seq<Command> {
    source.filter(|c: char| Command::of_char(c) is Some).map_values(
        |c: char| Command::of_char(c).unwrap(),
    )
}

/// What one more character at the end of the text adds to the program: its
/// command behind all the others, or nothing if it is a comment.
pub proof fn lemma_decode_push(source: Seq<char>, c: char)
    ensures
        decode(source.push(c)) == match Command::of_char(c) {
            Some(command) => decode(source).push(command),
            None => decode(source),
        },
{
    reveal(Seq::filter);
    assert(source.push(c).drop_last() =~= source);
    match Command::of_char(c) {
        Some(command) => {
            assert(decode(source.push(c)) =~= decode(source).push(command));
        },
        None => {},
    }
}

/// Decoding goes through the text piece by piece: the program of two texts
/// joined is the program of the first followed by the program of the second.
pub proof fn lemma_decode_concat(a: Seq<char>, b: Seq<char>)
    ensures
        decode(a + b) == decode(a) + decode(b),
{
    Seq::filter_distributes_over_add(a, b, |c: char| Command::of_char(c) is Some);
    assert(decode(a + b) =~= decode(a) + decode(b));
}

/// A program is never longer than its text.
pub proof fn lemma_decode_len(source: Seq<char>)
    ensures
        decode(source).len() <= source.len(),
{
    source.lemma_filter_len(|c: char| Command::of_char(c) is Some);
}

/// The program depends on the text alone: whatever two decodings of one text
/// return is the same program.
pub proof fn lemma_decode_deterministic(source: Seq<char>, first: Seq<Command>, second: Seq<Command>)
    requires
        first == decode(source),
        second == decode(source),
    ensures
        first == second,
{
}

/// Text without a command character decodes to the empty program.
pub proof fn lemma_decode_comment(source: Seq<char>)
    requires
        forall|k: int| 0 <= k < source.len() ==> Command::of_char(#[trigger] source[k]) is None,
    ensures
        decode(source) == Seq::<Command>::empty(),
    decreases source.len(),
{
    if source.len() > 0 {
        let front = source.drop_last();
        lemma_decode_comment(front);
        lemma_decode_push(front, source.last());
        assert(front.push(source.last()) =~= source);
    } else {
        reveal(Seq::filter);
        assert(decode(source) =~= Seq::<Command>::empty());
    }
}

} // verus!
