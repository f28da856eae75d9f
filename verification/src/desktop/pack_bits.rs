//! A run-length code for pixel data.
//!
//! A header byte below 128 stands before that many bytes and one more, as they are. A header
//! byte from 128 on stands before one byte that is repeated, as often as the header minus 127.
use crate::error::{DcError, DcErrorView};
use vstd::prelude::*;

verus! {

/// How often the byte at `start` is repeated from there on, counted up to `limit`.
pub open spec fn run_length(input: Seq<u8>, start: int, limit: nat) -> nat
    decreases limit,
{
    if limit == 0 {
        0
    } else {
        let shorter = run_length(input, start, (limit - 1) as nat);
        if shorter == limit - 1 && start + limit - 1 < input.len() && input[start + limit - 1]
            == input[start] {
            limit
        } else {
            shorter
        }
    }
}

/// The run at a position, counted up to the longest that one header can stand for.
pub open spec fn run_at(input: Seq<u8>, start: int) -> nat {
    run_length(input, start, 128)
}

/// A run, or one byte where there is none.
pub open spec fn step_at(input: Seq<u8>, start: int) -> int {
    if run_at(input, start) == 0 {
        1
    } else {
        run_at(input, start) as int
    }
}

/// Where a stretch of bytes without a long run ends, looked for from `index` on.
pub open spec fn stretch_end(input: Seq<u8>, start: int, index: int) -> int
    decreases input.len() - index,
{
    if 0 <= index < input.len() && index - start < 128 && run_at(input, index) < 4 {
        proof {
            lemma_run_length(input, index, 128);
        }
        stretch_end(input, start, index + step_at(input, index))
    } else {
        index
    }
}

/// Where the literal bytes that begin at `start` end.
pub open spec fn literal_end(input: Seq<u8>, start: int) -> int {
    let end = stretch_end(input, start, start + step_at(input, start));
    if end > start + 128 {
        start + 128
    } else {
        end
    }
}

/// The code of the bytes from `index` on: a run of at least four bytes is repeated, everything
/// else is literal.
pub open spec fn packed_from(input: Seq<u8>, index: int) -> Seq<u8>
    decreases input.len() - index,
{
    if index >= input.len() || index < 0 {
        Seq::empty()
    } else if run_at(input, index) >= 4 {
        let run = run_at(input, index);
        proof {
            lemma_run_length(input, index, 128);
        }
        seq![(127 + run) as u8, input[index]] + packed_from(input, index + run)
    } else {
        let end = literal_end(input, index);
        if end <= index || end > input.len() {
            Seq::empty()
        } else {
            seq![(end - index - 1) as u8] + input.subrange(index, end) + packed_from(input, end)
        }
    }
}

/// The code of a byte string.
pub open spec fn packed(input: Seq<u8>) -> Seq<u8> {
    packed_from(input, 0)
}

/// A byte repeated.
pub open spec fn repeated(value: u8, count: nat) -> Seq<u8> {
    Seq::new(count, |i: int| value)
}

/// Decodes from `index` on, behind what was decoded before; exactly `expected` bytes have to come
/// out and the whole code has to be used up.
pub open spec fn unpacked_from(
    input: Seq<u8>,
    index: int,
    output: Seq<u8>,
    expected: nat,
) -> Result<Seq<u8>, DcErrorView>
    decreases input.len() - index,
{
    if 0 <= index < input.len() && output.len() < expected {
        let header = input[index];
        if header >= 128 {
            let count = (header - 127) as nat;
            if index + 1 >= input.len() {
                Err(DcErrorView::Codec("truncated region repeat run"@))
            } else if output.len() + count > usize::MAX {
                Err(DcErrorView::Codec("region payload overflowed"@))
            } else if output.len() + count > expected {
                Err(DcErrorView::Codec("region payload exceeds expected size"@))
            } else {
                unpacked_from(
                    input,
                    index + 2,
                    output + repeated(input[index + 1], count),
                    expected,
                )
            }
        } else {
            let count = header + 1;
            let end = index + 1 + count;
            if end > usize::MAX {
                Err(DcErrorView::Codec("region payload overflowed"@))
            } else if end > input.len() {
                Err(DcErrorView::Codec("truncated region literal run"@))
            } else if output.len() + count > expected {
                Err(DcErrorView::Codec("region payload exceeds expected size"@))
            } else {
                unpacked_from(input, end, output + input.subrange(index + 1, end), expected)
            }
        }
    } else if index != input.len() || output.len() != expected {
        Err(DcErrorView::Codec("region payload has the wrong size"@))
    } else {
        Ok(output)
    }
}

/// What a code of `expected` bytes decodes to.
pub open spec fn unpacked(input: Seq<u8>, expected: nat) -> Result<Seq<u8>, DcErrorView> {
    unpacked_from(input, 0, Seq::empty(), expected)
}

/// A run counts equal bytes inside the input, and ends where they end.
pub proof fn lemma_run_length(input: Seq<u8>, start: int, limit: nat)
    requires
        0 <= start,
    ensures
        run_length(input, start, limit) <= limit,
        start < input.len() ==> start + run_length(input, start, limit) <= input.len(),
        start >= input.len() ==> run_length(input, start, limit) == 0,
        start < input.len() && limit > 0 ==> run_length(input, start, limit) >= 1,
        forall|i: int|
            start <= i < start + run_length(input, start, limit) ==> #[trigger] input[i]
                == input[start],
    decreases limit,
{
    if limit > 0 {
        lemma_run_length(input, start, (limit - 1) as nat);
    }
}

/// A run that ends before the limit ends for every larger limit.
proof fn lemma_run_stops(input: Seq<u8>, start: int, limit: nat, more: nat)
    requires
        0 <= start,
        limit <= more,
        run_length(input, start, limit) < limit,
    ensures
        run_length(input, start, more) == run_length(input, start, limit),
    decreases more,
{
    if limit < more {
        lemma_run_stops(input, start, limit, (more - 1) as nat);
    }
}

proof fn lemma_stretch_end(input: Seq<u8>, start: int, index: int)
    requires
        0 <= start < index <= input.len(),
    ensures
        index <= stretch_end(input, start, index) <= input.len(),
    decreases input.len() - index,
{
    if index < input.len() && index - start < 128 && run_at(input, index) < 4 {
        lemma_run_length(input, index, 128);
        lemma_stretch_end(input, start, index + step_at(input, index));
    }
}

proof fn lemma_literal_end(input: Seq<u8>, start: int)
    requires
        0 <= start < input.len(),
    ensures
        start < literal_end(input, start) <= input.len(),
        literal_end(input, start) <= start + 128,
{
    lemma_run_length(input, start, 128);
    lemma_stretch_end(input, start, start + step_at(input, start));
}

/// Counts the equal bytes from a position on, up to 128.
fn repeated_run(input: &[u8], start: usize) -> (run: usize)
    ensures
        run == run_at(input@, start as int),
        run <= 128,
        start < input@.len() ==> 1 <= run <= input@.len() - start,
        start >= input@.len() ==> run == 0,
{
    proof {
        lemma_run_length(input@, start as int, 128);
    }
    if start >= input.len() {
        return 0;
    }
    let value: u8 = input[start];
    let mut run: usize = 1;
    proof {
        reveal_with_fuel(run_length, 3);
        assert(run_length(input@, start as int, 0) == 0);
        assert(run_length(input@, start as int, 1) == 1);
    }
    while run < 128 && run < input.len() - start && input[start + run] == value
        invariant
            start < input@.len(),
            value == input@[start as int],
            1 <= run <= 128,
            run <= input@.len() - start,
            run_length(input@, start as int, run as nat) == run,
        decreases 128 - run,
    {
        run = run + 1;
    }
    proof {
        if run < 128 {
            assert(run_length(input@, start as int, (run + 1) as nat) == run);
            lemma_run_stops(input@, start as int, (run + 1) as nat, 128);
        }
    }
    run
}

/// Encodes a byte string.
pub(crate) fn pack_bits(input: &[u8]) -> (output: Vec<u8>)
    ensures
        output@ == packed(input@),
{
    let mut output: Vec<u8> = Vec::with_capacity(input.len());
    let mut index: usize = 0;
    assert(output@ + packed_from(input@, 0) =~= packed(input@));
    while index < input.len()
        invariant
            index <= input@.len(),
            output@ + packed_from(input@, index as int) == packed(input@),
        decreases input@.len() - index,
    {
        let ghost before = output@;
        let run: usize = repeated_run(input, index);
        if run >= 4 {
            output.push((127 + run) as u8);
            output.push(input[index]);
            proof {
                assert(before + packed_from(input@, index as int) =~= output@ + packed_from(
                    input@,
                    index + run,
                ));
            }
            index = index + run;
        } else {
            let start: usize = index;
            let mut end: usize = start + run;
            while end < input.len() && end - start < 128 && repeated_run(input, end) < 4
                invariant
                    start < end <= input@.len(),
                    stretch_end(input@, start as int, end as int) == stretch_end(
                        input@,
                        start as int,
                        start + step_at(input@, start as int),
                    ),
                decreases input@.len() - end,
            {
                end = end + repeated_run(input, end);
            }
            if end - start > 128 {
                end = start + 128;
            }
            proof {
                lemma_literal_end(input@, start as int);
                assert(end == literal_end(input@, start as int));
            }
            output.push((end - start - 1) as u8);
            crate::bytes::put_slice(&mut output, vstd::slice::slice_subrange(input, start, end));
            proof {
                assert(before + packed_from(input@, start as int) =~= output@ + packed_from(
                    input@,
                    end as int,
                ));
            }
            index = end;
        }
    }
    assert(output@ + Seq::empty() =~= output@);
    output
}

/// Decodes a byte string of which the length is known.
pub(crate) fn unpack_bits(input: &[u8], expected: usize) -> (result: Result<Vec<u8>, DcError>)
    ensures
        match result {
            Ok(output) => unpacked(input@, expected as nat) == Ok::<Seq<u8>, DcErrorView>(output@),
            Err(e) => unpacked(input@, expected as nat) == Err::<Seq<u8>, DcErrorView>(e@),
        },
{
    let mut output: Vec<u8> = Vec::with_capacity(expected);
    let mut index: usize = 0;
    while index < input.len() && output.len() < expected
        invariant
            index <= input@.len(),
            output@.len() <= expected,
            unpacked_from(input@, index as int, output@, expected as nat) == unpacked(
                input@,
                expected as nat,
            ),
        decreases input@.len() - index,
    {
        let header: u8 = input[index];
        if header >= 128 {
            let count: usize = header as usize - 127;
            if index + 1 >= input.len() {
                return Err(DcError::codec("truncated region repeat run"));
            }
            let value: u8 = input[index + 1];
            let length: usize = match output.len().checked_add(count) {
                Some(length) => length,
                None => {
                    return Err(DcError::codec("region payload overflowed"));
                },
            };
            if length > expected {
                return Err(DcError::codec("region payload exceeds expected size"));
            }
            let ghost before = output@;
            output.resize(length, value);
            proof {
                assert(output@ =~= before + repeated(value, count as nat)) by {
                    assert forall|i: int| 0 <= i < output@.len() implies output@[i] == (before
                        + repeated(value, count as nat))[i] by {
                        if i < before.len() {
                            assert(output@.subrange(0, before.len() as int)[i] == before[i]);
                        }
                    }
                }
            }
            index = index + 2;
        } else {
            let count: usize = header as usize + 1;
            let start: usize = index + 1;
            let end: usize = match start.checked_add(count) {
                Some(end) => end,
                None => {
                    return Err(DcError::codec("region payload overflowed"));
                },
            };
            if end > input.len() {
                return Err(DcError::codec("truncated region literal run"));
            }
            if count > expected - output.len() {
                return Err(DcError::codec("region payload exceeds expected size"));
            }
            crate::bytes::put_slice(&mut output, vstd::slice::slice_subrange(input, start, end));
            index = end;
        }
    }
    if index != input.len() || output.len() != expected {
        return Err(DcError::codec("region payload has the wrong size"));
    }
    Ok(output)
}

/// Decoding goes on behind a part that was encoded: from the code of the bytes behind it, the
/// whole input comes out.
proof fn lemma_unpack_rest(input: Seq<u8>, code: Seq<u8>, at: int, done: int)
    requires
        input.len() <= usize::MAX,
        code.len() <= usize::MAX,
        0 <= done <= input.len(),
        0 <= at <= code.len(),
        code.skip(at) == packed_from(input, done),
    ensures
        unpacked_from(code, at, input.take(done), input.len()) == Ok::<Seq<u8>, DcErrorView>(
            input,
        ),
    decreases input.len() - done,
{
    let rest = packed_from(input, done);
    if done == input.len() {
        assert(input.take(done) =~= input);
        assert(code.skip(at).len() == 0);
    } else if run_at(input, done) >= 4 {
        lemma_run_length(input, done, 128);
        let run = run_at(input, done);
        let next = packed_from(input, done + run);
        assert(rest == seq![(127 + run) as u8, input[done]] + next);
        assert(code[at] == code.skip(at)[0]);
        assert(code[at + 1] == code.skip(at)[1]);
        assert(code.skip(at + 2) =~= code.skip(at).skip(2));
        assert(rest.skip(2) =~= next);
        assert(input.take(done) + repeated(input[done], run) =~= input.take(done + run));
        lemma_unpack_rest(input, code, at + 2, done + run);
    } else {
        lemma_literal_end(input, done);
        let end = literal_end(input, done);
        let count = end - done;
        let next = packed_from(input, end);
        let head = seq![(count - 1) as u8] + input.subrange(done, end);
        assert(rest == head + next);
        assert(code.skip(at).len() == head.len() + next.len());
        assert(code[at] == code.skip(at)[0]);
        assert(head[0] == (count - 1) as u8);
        let stop = at + 1 + count;
        assert(code.subrange(at + 1, stop) =~= input.subrange(done, end)) by {
            assert forall|i: int| 0 <= i < count implies code.subrange(at + 1, stop)[i]
                == #[trigger] input.subrange(done, end)[i] by {
                assert(code.skip(at)[1 + i] == code[at + 1 + i]);
                assert(head[1 + i] == input.subrange(done, end)[i]);
            }
        }
        assert(code.skip(stop) =~= code.skip(at).skip(1 + count));
        assert(rest.skip(1 + count) =~= next);
        assert(input.take(done) + input.subrange(done, end) =~= input.take(end));
        lemma_unpack_rest(input, code, stop, end);
    }
}

/// Decoding gives back what was encoded.
pub proof fn law_unpack_reads_back_pack(input: Seq<u8>)
    requires
        input.len() <= usize::MAX,
        packed(input).len() <= usize::MAX,
    ensures
        unpacked(packed(input), input.len()) == Ok::<Seq<u8>, DcErrorView>(input),
{
    let code = packed(input);
    assert(code.skip(0) =~= code);
    assert(input.take(0) =~= Seq::empty());
    lemma_unpack_rest(input, code, 0, 0);
}

/// What unpacks after a part that is complete is joined to it.
proof fn lemma_unpack_joined(
    first: Seq<u8>,
    second: Seq<u8>,
    at: int,
    done: Seq<u8>,
    expected: nat,
    more: nat,
)
    requires
        0 <= at <= first.len(),
        done.len() <= expected,
        expected + more <= usize::MAX,
        first.len() + second.len() <= usize::MAX,
        unpacked_from(first, at, done, expected) is Ok,
    ensures
        ({
            let output = unpacked_from(first, at, done, expected)->Ok_0;
            &&& output.len() == expected
            &&& unpacked_from(first + second, at, done, expected + more) == unpacked_from(
                first + second,
                first.len() as int,
                output,
                expected + more,
            )
        }),
    decreases first.len() - at,
{
    let joined = first + second;
    if at < first.len() && done.len() < expected {
        let header = first[at];
        assert(joined[at] == header);
        if header >= 128 {
            let count = (header - 127) as nat;
            assert(joined[at + 1] == first[at + 1]);
            lemma_unpack_joined(
                first,
                second,
                at + 2,
                done + repeated(first[at + 1], count),
                expected,
                more,
            );
        } else {
            let end = at + 1 + header + 1;
            assert(joined.subrange(at + 1, end) =~= first.subrange(at + 1, end));
            lemma_unpack_joined(
                first,
                second,
                end,
                done + first.subrange(at + 1, end),
                expected,
                more,
            );
        }
    }
}

/// What unpacks in front of what was given before.
proof fn lemma_unpack_behind(
    first: Seq<u8>,
    second: Seq<u8>,
    at: int,
    front: Seq<u8>,
    done: Seq<u8>,
    expected: nat,
)
    requires
        0 <= at <= second.len(),
        front.len() + expected <= usize::MAX,
        first.len() + second.len() <= usize::MAX,
        unpacked_from(second, at, done, expected) is Ok,
    ensures
        unpacked_from(first + second, first.len() + at, front + done, front.len() + expected)
            == Ok::<Seq<u8>, DcErrorView>(
            front + unpacked_from(second, at, done, expected)->Ok_0,
        ),
    decreases second.len() - at,
{
    let joined = first + second;
    let place = first.len() + at;
    if at < second.len() && done.len() < expected {
        let header = second[at];
        assert(joined[place] == header);
        if header >= 128 {
            let count = (header - 127) as nat;
            assert(joined[place + 1] == second[at + 1]);
            lemma_unpack_behind(
                first,
                second,
                at + 2,
                front,
                done + repeated(second[at + 1], count),
                expected,
            );
            assert(front + (done + repeated(second[at + 1], count)) =~= (front + done) + repeated(
                second[at + 1],
                count,
            ));
        } else {
            let end = at + 1 + header + 1;
            assert(joined.subrange(place + 1, first.len() + end) =~= second.subrange(at + 1, end));
            lemma_unpack_behind(
                first,
                second,
                end,
                front,
                done + second.subrange(at + 1, end),
                expected,
            );
            assert(front + (done + second.subrange(at + 1, end)) =~= (front + done)
                + second.subrange(at + 1, end));
        }
    }
}

/// What a packed payload means: a byte from 128 on repeats the byte behind it, 127 times less than it
/// says; any other byte is followed by as many bytes as they are, and one more. Parts that follow one
/// another stand for what each of them stands for.
pub proof fn law_packed_parts_stand_for_themselves(
    value: u8,
    count: nat,
    literal: Seq<u8>,
    first: Seq<u8>,
    second: Seq<u8>,
    before: nat,
    behind: nat,
)
    requires
        1 <= count <= 128,
        1 <= literal.len() <= 128,
        before + behind <= usize::MAX,
        first.len() + second.len() <= usize::MAX,
    ensures
        unpacked(seq![(127 + count) as u8, value], count) == Ok::<Seq<u8>, DcErrorView>(
            Seq::new(count, |i: int| value),
        ),
        unpacked(seq![(literal.len() - 1) as u8] + literal, literal.len()) == Ok::<
            Seq<u8>,
            DcErrorView,
        >(literal),
        unpacked(Seq::empty(), 0) == Ok::<Seq<u8>, DcErrorView>(Seq::empty()),
        unpacked(first, before) is Ok ==> unpacked(first, before)->Ok_0.len() == before,
        unpacked(first, before) is Ok && unpacked(second, behind) is Ok ==> unpacked(
            first + second,
            before + behind,
        ) == Ok::<Seq<u8>, DcErrorView>(
            unpacked(first, before)->Ok_0 + unpacked(second, behind)->Ok_0,
        ),
{
    let run = seq![(127 + count) as u8, value];
    assert(run[0] == 127 + count && run[1] == value);
    let all = Seq::<u8>::empty() + repeated(value, count);
    assert(all =~= Seq::new(count, |i: int| value));
    assert(unpacked_from(run, 2, all, count) == Ok::<Seq<u8>, DcErrorView>(all));
    let plain = seq![(literal.len() - 1) as u8] + literal;
    assert(plain[0] == literal.len() - 1);
    let end = plain.len() as int;
    let rest = Seq::<u8>::empty() + plain.subrange(1, end);
    assert(rest =~= literal);
    assert(unpacked_from(plain, end, rest, literal.len()) == Ok::<Seq<u8>, DcErrorView>(rest));
    if unpacked(first, before) is Ok {
        lemma_unpack_joined(first, second, 0, Seq::empty(), before, behind);
        if unpacked(second, behind) is Ok {
            let front = unpacked(first, before)->Ok_0;
            lemma_unpack_behind(first, second, 0, front, Seq::empty(), behind);
            assert(front + Seq::<u8>::empty() =~= front);
        }
    }
}

/// Equal bytes are packed into two, from four to a hundred and twenty-eight of them.
pub proof fn law_equal_bytes_take_two(value: u8, count: nat)
    requires
        4 <= count <= 128,
    ensures
        packed(Seq::new(count, |i: int| value)) == seq![(127 + count) as u8, value],
{
    let input = Seq::new(count, |i: int| value);
    lemma_whole_run(input, value, count);
    assert(run_length(input, 0, count) == count);
    if count < 128 {
        lemma_run_length(input, 0, count + 1);
        assert(run_length(input, 0, count + 1) == count);
        lemma_run_stops(input, 0, count + 1, 128);
    }
    assert(run_at(input, 0) == count);
    assert(packed_from(input, count as int) =~= Seq::empty());
    assert(packed(input) =~= seq![(127 + count) as u8, value]);
}

proof fn lemma_whole_run(input: Seq<u8>, value: u8, count: nat)
    requires
        count <= input.len(),
        forall|i: int| 0 <= i < input.len() ==> input[i] == value,
    ensures
        run_length(input, 0, count) == count,
    decreases count,
{
    if count > 0 {
        lemma_whole_run(input, value, (count - 1) as nat);
    }
}

/// Whether no byte is like the one before it.
pub open spec fn neighbors_differ(input: Seq<u8>) -> bool {
    forall|i: int| 0 < i < input.len() ==> input[i - 1] != #[trigger] input[i]
}

/// Where no byte is like the one before it, every run is one byte long.
proof fn lemma_runs_of_one(input: Seq<u8>, index: int)
    requires
        neighbors_differ(input),
        0 <= index < input.len(),
    ensures
        run_at(input, index) == 1,
{
    assert(run_length(input, index, 0) == 0);
    assert(run_length(input, index, 1) == 1);
    if index + 1 < input.len() {
        assert(input[index + 1 - 1] != input[index + 1]);
    }
    assert(run_length(input, index, 2) == 1);
    lemma_run_stops(input, index, 2, 128);
}

/// Where no byte is like the one before it, a stretch takes all bytes or 128.
proof fn lemma_plain_stretch(input: Seq<u8>, index: int)
    requires
        neighbors_differ(input),
        0 <= index <= input.len(),
        index <= 128,
    ensures
        stretch_end(input, 0, index) == if input.len() < 128 {
            input.len() as int
        } else {
            128
        },
    decreases input.len() - index,
{
    if index < input.len() && index < 128 {
        lemma_runs_of_one(input, index);
        lemma_plain_stretch(input, index + 1);
    }
}

/// Bytes that are never like the one before are kept as they are, behind one byte that tells their
/// number; where there are more than 128 of them, the first 128 stand together.
pub proof fn law_plain_bytes_take_one_more(input: Seq<u8>)
    requires
        neighbors_differ(input),
        0 < input.len(),
    ensures
        input.len() <= 128 ==> packed(input) == seq![(input.len() - 1) as u8] + input,
        input.len() > 128 ==> packed(input).len() > 129 && packed(input)[0] == 127 && packed(
            input,
        ).subrange(1, 129) == input.subrange(0, 128),
{
    lemma_runs_of_one(input, 0);
    lemma_plain_stretch(input, 1);
    let end: int = if input.len() < 128 {
        input.len() as int
    } else {
        128
    };
    assert(literal_end(input, 0) == end);
    let front = seq![(end - 1) as u8] + input.subrange(0, end);
    let rest = packed_from(input, end);
    assert(packed(input) =~= front + rest);
    if input.len() <= 128 {
        assert(rest =~= Seq::empty());
        assert(input.subrange(0, end) =~= input);
        assert(packed(input) =~= seq![(input.len() - 1) as u8] + input);
    } else {
        lemma_runs_of_one(input, 128);
        lemma_literal_end(input, 128);
        assert(rest.len() > 0);
        assert(packed(input).subrange(1, 129) =~= input.subrange(0, 128));
    }
}

/// A stretch ends 128 bytes on or later, at the end, or where four equal bytes begin.
proof fn lemma_stretch_goes_on(input: Seq<u8>, start: int, index: int)
    requires
        0 <= index <= input.len(),
    ensures
        ({
            let end = stretch_end(input, start, index);
            end - start >= 128 || end >= input.len() || run_at(input, end) >= 4
        }),
    decreases input.len() - index,
{
    if index < input.len() && index - start < 128 && run_at(input, index) < 4 {
        lemma_run_length(input, index, 128);
        lemma_stretch_goes_on(input, start, index + step_at(input, index));
    }
}

/// Bytes that are kept as they are stand together as far as they can: 128 of them, or up to the end, or
/// up to the next four that are equal.
pub proof fn law_plain_bytes_stand_together(input: Seq<u8>)
    requires
        0 < input.len(),
        input.len() < 4 || input[0] != input[1] || input[0] != input[2] || input[0] != input[3],
    ensures
        packed(input).len() > 0,
        ({
            let end = packed(input)[0] + 1;
            &&& end <= 128
            &&& end <= input.len()
            &&& end < packed(input).len()
            &&& packed(input).subrange(1, end + 1) == input.subrange(0, end)
            &&& end == 128 || end == input.len() || (end + 4 <= input.len() && input[end]
                == input[end + 1] && input[end] == input[end + 2] && input[end] == input[end + 3])
        }),
{
    lemma_run_length(input, 0, 128);
    if run_at(input, 0) >= 4 {
        assert(input[1] == input[0] && input[2] == input[0] && input[3] == input[0]);
    }
    lemma_literal_end(input, 0);
    lemma_stretch_end(input, 0, step_at(input, 0));
    lemma_stretch_goes_on(input, 0, step_at(input, 0));
    let end = literal_end(input, 0);
    let front = seq![(end - 1) as u8] + input.subrange(0, end);
    assert(packed(input) =~= front + packed_from(input, end));
    assert(packed(input).subrange(1, end + 1) =~= input.subrange(0, end));
    if end < 128 && end < input.len() {
        lemma_run_length(input, end, 128);
        assert(input[end + 1] == input[end] && input[end + 2] == input[end] && input[end + 3]
            == input[end]);
    }
}

} // verus!
