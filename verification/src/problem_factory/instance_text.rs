//! The text of an instance file: lines of numbers separated by blanks.
use vstd::prelude::*;

verus! {

/// A blank: a space, a tab, a line feed, a vertical tab, a form feed or a
/// carriage return.
pub open spec fn is_blank(byte: u8) -> bool {
    byte == 32 || (9 <= byte && byte <= 13)
}

/// A decimal digit.
pub open spec fn is_digit(byte: u8) -> bool {
    48 <= byte && byte <= 57
}

/// `start..end` is the first token of `text[from..limit]`: the first run of
/// bytes that are not blank, taken as far as it goes.
pub open spec fn is_first_token(text: Seq<u8>, from: int, limit: int, start: int, end: int) -> bool {
    &&& from <= start < end <= limit
    &&& forall|i: int| from <= i < start ==> is_blank(#[trigger] text[i])
    &&& forall|i: int| start <= i < end ==> !is_blank(#[trigger] text[i])
    &&& end == limit || is_blank(text[end])
}

/// The first token of `text[from..limit]`, if it holds one.
pub open spec fn first_token(text: Seq<u8>, from: int, limit: int) -> Option<(int, int)> {
    if exists|start: int, end: int| is_first_token(text, from, limit, start, end) {
        Some(choose|bounds: (int, int)| is_first_token(text, from, limit, bounds.0, bounds.1))
    } else {
        None
    }
}

/// The number that decimal digits spell.
pub open spec fn digits_value(digits: Seq<u8>) -> nat
    decreases digits.len(),
{
    if digits.len() == 0 {
        0
    } else {
        10 * digits_value(digits.drop_last()) + (digits.last() - 48) as nat
    }
}

/// At least one byte, and all of them decimal digits.
pub open spec fn all_digits(digits: Seq<u8>) -> bool {
    &&& digits.len() > 0
    &&& forall|i: int| 0 <= i < digits.len() ==> is_digit(#[trigger] digits[i])
}

/// The number that a token spells: decimal digits, after a plus or a minus
/// sign or none, that give a number of 32 bits.
pub open spec fn number_of(token: Seq<u8>) -> Option<i32> {
    let signed = token.len() > 0 && (token[0] == 45 || token[0] == 43);
    let negative = token.len() > 0 && token[0] == 45;
    let digits = if signed {
        token.skip(1)
    } else {
        token
    };
    let value = if negative {
        -(digits_value(digits) as int)
    } else {
        digits_value(digits) as int
    };
    if all_digits(digits) && i32::MIN <= value <= i32::MAX {
        Some(value as i32)
    } else {
        None
    }
}

/// The number that the first token of `text[from..limit]` spells, and where
/// the token ends.
pub open spec fn number_at(text: Seq<u8>, from: int, limit: int) -> Option<(i32, int)> {
    match first_token(text, from, limit) {
        Some((start, end)) => match number_of(text.subrange(start, end)) {
            Some(number) => Some((number, end)),
            None => None,
        },
        None => None,
    }
}

/// The clause that the line `text[from..limit]` spells: the numbers of its
/// first three tokens. What follows them on the line plays no part.
pub open spec fn clause_at(text: Seq<u8>, from: int, limit: int) -> Option<(i32, i32, i32)> {
    match number_at(text, from, limit) {
        Some((a, after_a)) => match number_at(text, after_a, limit) {
            Some((b, after_b)) => match number_at(text, after_b, limit) {
                Some((c, _)) => Some((a, b, c)),
                None => None,
            },
            None => None,
        },
        None => None,
    }
}

/// Where the line that starts at `from` ends: at the next line feed, or at
/// the end of the text.
pub open spec fn line_end(text: Seq<u8>, from: int) -> int
    decreases text.len() - from,
{
    if 0 <= from < text.len() && text[from] != 10 {
        line_end(text, from + 1)
    } else {
        from
    }
}

/// The clauses that the lines of the text spell from `from` on, in order;
/// none if a line does not spell a clause. The text after the last line
/// feed is a line only if it is not empty.
pub open spec fn clauses_from(text: Seq<u8>, from: int) -> Option<Seq<(i32, i32, i32)>>
    decreases text.len() - from,
{
    if from < 0 || from >= text.len() {
        Some(Seq::empty())
    } else {
        let end = line_end(text, from);
        if end < from {
            None
        } else {
            match clause_at(text, from, end) {
                Some(clause) => if end >= text.len() {
                    Some(seq![clause])
                } else {
                    match clauses_from(text, end + 1) {
                        Some(rest) => Some(seq![clause] + rest),
                        None => None,
                    }
                },
                None => None,
            }
        }
    }
}

/// The clauses that `rest` adds to `found`, if there are any.
pub open spec fn joined(found: Seq<(i32, i32, i32)>, rest: Option<Seq<(i32, i32, i32)>>) -> Option<
    Seq<(i32, i32, i32)>,
> {
    match rest {
        Some(more) => Some(found + more),
        None => None,
    }
}

/// A text has at most one first token.
pub proof fn lemma_first_token_unique(text: Seq<u8>, from: int, limit: int, start: int, end: int)
    requires
        0 <= from,
        limit <= text.len(),
        is_first_token(text, from, limit, start, end),
    ensures
        first_token(text, from, limit) == Some((start, end)),
{
    let bounds = choose|bounds: (int, int)| is_first_token(text, from, limit, bounds.0, bounds.1);
    assert(is_first_token(text, from, limit, (start, end).0, (start, end).1));
    assert(is_first_token(text, from, limit, bounds.0, bounds.1));
    if bounds.0 < start {
        assert(is_blank(text[bounds.0]));
    }
    if start < bounds.0 {
        assert(is_blank(text[start]));
    }
    if bounds.1 < end {
        assert(!is_blank(text[bounds.1]));
    }
    if end < bounds.1 {
        assert(!is_blank(text[end]));
    }
}

/// One more digit multiplies the number by ten and adds the digit.
proof fn lemma_digits_value_step(digits: Seq<u8>, count: int)
    requires
        0 <= count < digits.len(),
    ensures
        digits_value(digits.take(count + 1)) == 10 * digits_value(digits.take(count)) + (
        digits[count] - 48) as nat,
{
    assert(digits.take(count + 1).drop_last() =~= digits.take(count));
}

/// The first token of `text[from..limit]`, if it holds one.
pub fn next_token(text: &[u8], from: usize, limit: usize) -> (bounds: Option<(usize, usize)>)
    requires
        from <= limit <= text.len(),
    ensures
        match first_token(text@, from as int, limit as int) {
            Some((start, end)) => bounds == Some((start as usize, end as usize)) && from <= start
                < end <= limit,
            None => bounds is None,
        },
{
    let mut start: usize = from;
    while start < limit && is_blank_byte(text[start])
        invariant
            from <= start <= limit <= text.len(),
            forall|i: int| from <= i < start ==> is_blank(#[trigger] text[i]),
        decreases limit - start,
    {
        start = start + 1;
    }
    if start >= limit {
        proof {
            if exists|s: int, e: int| is_first_token(text@, from as int, limit as int, s, e) {
                let (s, e) = choose|s: int, e: int|
                    is_first_token(text@, from as int, limit as int, s, e);
                assert(is_blank(text@[s]));
            }
        }
        return None;
    }
    let mut end: usize = start + 1;
    while end < limit && !is_blank_byte(text[end])
        invariant
            from <= start < end <= limit <= text.len(),
            forall|i: int| start <= i < end ==> !is_blank(#[trigger] text[i]),
        decreases limit - end,
    {
        end = end + 1;
    }
    proof {
        lemma_first_token_unique(text@, from as int, limit as int, start as int, end as int);
    }
    Some((start, end))
}

/// Tells whether a byte is a blank.
pub fn is_blank_byte(byte: u8) -> (blank: bool)
    ensures
        blank == is_blank(byte),
{
    byte == 32 || (9 <= byte && byte <= 13)
}

/// The number that the token `text[start..end]` spells.
pub fn parse_number(text: &[u8], start: usize, end: usize) -> (number: Option<i32>)
    requires
        start <= end <= text.len(),
    ensures
        number == number_of(text@.subrange(start as int, end as int)),
{
    let ghost token = text@.subrange(start as int, end as int);
    if start == end {
        return None;
    }
    let negative = text[start] == 45;
    let signed = negative || text[start] == 43;
    let first = if signed {
        start + 1
    } else {
        start
    };
    let ghost digits = if signed {
        token.skip(1)
    } else {
        token
    };
    assert(token[0] == text@[start as int]);
    assert(digits.len() == end - first);
    assert forall|k: int| 0 <= k < digits.len() implies digits[k] == text@[first + k] by {}
    if first == end {
        return None;
    }
    // The digits read so far spell `value`, unless they spell more than the
    // bound: then `over` holds.
    let bound: u64 = 2147483648;
    let mut value: u64 = 0;
    let mut over = false;
    let mut i: usize = first;
    assert(digits.take(0) =~= Seq::<u8>::empty());
    while i < end
        invariant
            first <= i <= end <= text.len(),
            start < end,
            token == text@.subrange(start as int, end as int),
            negative == (token[0] == 45),
            signed == (token[0] == 45 || token[0] == 43),
            digits == if signed {
                token.skip(1)
            } else {
                token
            },
            digits.len() == end - first,
            forall|k: int| 0 <= k < digits.len() ==> digits[k] == text@[first + k],
            forall|k: int| 0 <= k < i - first ==> is_digit(#[trigger] digits[k]),
            bound == 2147483648,
            !over ==> value == digits_value(digits.take(i - first)) && value <= bound,
            over ==> digits_value(digits.take(i - first)) > bound,
        decreases end - i,
    {
        let byte = text[i];
        if byte < 48 || byte > 57 {
            assert(!is_digit(digits[i - first]));
            return None;
        }
        proof {
            lemma_digits_value_step(digits, i - first);
        }
        if !over {
            value = 10 * value + (byte - 48) as u64;
            if value > bound {
                over = true;
            }
        }
        i = i + 1;
    }
    assert(digits.take(digits.len() as int) =~= digits);
    if over {
        return None;
    }
    if negative {
        if value == bound {
            Some(i32::MIN)
        } else {
            Some(-(value as i32))
        }
    } else {
        if value == bound {
            None
        } else {
            Some(value as i32)
        }
    }
}

/// The number that the first token of `text[from..limit]` spells, and where
/// the token ends.
pub fn read_number(text: &[u8], from: usize, limit: usize) -> (found: Option<(i32, usize)>)
    requires
        from <= limit <= text.len(),
    ensures
        match number_at(text@, from as int, limit as int) {
            Some((number, end)) => found == Some((number, end as usize)) && from < end <= limit,
            None => found is None,
        },
{
    match next_token(text, from, limit) {
        Some((start, end)) => match parse_number(text, start, end) {
            Some(number) => Some((number, end)),
            None => None,
        },
        None => None,
    }
}

/// The clause that the line `text[from..limit]` spells.
pub fn read_clause(text: &[u8], from: usize, limit: usize) -> (clause: Option<(i32, i32, i32)>)
    requires
        from <= limit <= text.len(),
    ensures
        clause == clause_at(text@, from as int, limit as int),
{
    let (a, after_a) = match read_number(text, from, limit) {
        Some(found) => found,
        None => {
            return None;
        },
    };
    let (b, after_b) = match read_number(text, after_a, limit) {
        Some(found) => found,
        None => {
            return None;
        },
    };
    match read_number(text, after_b, limit) {
        Some((c, _)) => Some((a, b, c)),
        None => None,
    }
}

/// The clauses that the lines of the text spell, in order, or nothing if a
/// line does not spell a clause.
pub fn read_clauses(text: &[u8]) -> (problem: Option<Vec<(i32, i32, i32)>>)
    ensures
        match clauses_from(text@, 0) {
            Some(clauses) => problem matches Some(found) && found@ == clauses,
            None => problem is None,
        },
{
    let mut found: Vec<(i32, i32, i32)> = Vec::new();
    let mut from: usize = 0;
    assert(joined(found@, clauses_from(text@, 0)) == clauses_from(text@, 0)) by {
        if clauses_from(text@, 0) is Some {
            assert(found@ + clauses_from(text@, 0).unwrap() =~= clauses_from(text@, 0).unwrap());
        }
    }
    while from < text.len()
        invariant
            from <= text.len(),
            clauses_from(text@, 0) == joined(found@, clauses_from(text@, from as int)),
        decreases text.len() - from,
    {
        let mut end: usize = from;
        while end < text.len() && text[end] != 10
            invariant
                from <= end <= text.len(),
                line_end(text@, from as int) == line_end(text@, end as int),
            decreases text.len() - end,
        {
            end = end + 1;
        }
        assert(line_end(text@, from as int) == end);
        let clause = match read_clause(text, from, end) {
            Some(clause) => clause,
            None => {
                return None;
            },
        };
        let ghost before = found@;
        found.push(clause);
        proof {
            if end >= text.len() {
                assert(before + seq![clause] =~= found@);
                assert(found@ + Seq::<(i32, i32, i32)>::empty() =~= found@);
            } else {
                let rest = clauses_from(text@, end + 1);
                if rest is Some {
                    assert(before + (seq![clause] + rest.unwrap()) =~= found@ + rest.unwrap());
                }
            }
        }
        if end == text.len() {
            from = end;
        } else {
            from = end + 1;
        }
    }
    proof {
        assert(found@ + Seq::<(i32, i32, i32)>::empty() =~= found@);
    }
    Some(found)
}

} // verus!
