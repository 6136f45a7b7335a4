use vstd::prelude::*;

verus! {

/// `String::push` appends one character to the end of the string.
pub assume_specification[ String::push ](text: &mut String, ch: char)
    ensures
        final(text)@ == old(text)@.push(ch),
;

/// The comma-separated fields of a line, in order.
///
/// A line without a comma is one field, the empty line too. Each comma ends
/// a field and opens the next, so a line that ends in a comma has an empty
/// last field.
pub open spec fn fields(line: Seq<char>) -> Seq<Seq<char>>
    decreases line.len(),
{
    if line.len() == 0 {
        seq![Seq::empty()]
    } else {
        let before = fields(line.drop_last());
        if line.last() == ',' {
            before.push(Seq::empty())
        } else {
            before.drop_last().push(before.last().push(line.last()))
        }
    }
}

/// `value` is something that `parse_field` may return for a field that reads
/// `field`.
pub open spec fn field_reads<T, F: Fn(&str) -> Option<T>>(
    parse_field: F,
    field: Seq<char>,
    value: Option<T>,
) -> bool {
    exists|text: &str| text@ == field && call_ensures(parse_field, (text,), value)
}

/// `parsed` is a result that the line `input` may have under `parse_field`:
/// one value for each field, or nothing where the line is empty or a field
/// does not read as a value.
pub open spec fn line_reads<T, F: Fn(&str) -> Option<T>>(
    parse_field: F,
    input: Seq<char>,
    parsed: Option<Seq<T>>,
) -> bool {
    match parsed {
        Some(values) => {
            &&& input.len() > 0
            &&& values.len() == fields(input).len()
            &&& forall|i: int|
                0 <= i < values.len() ==> field_reads(
                    parse_field,
                    #[trigger] fields(input)[i],
                    Some(values[i]),
                )
        },
        None => {
            ||| input.len() == 0
            ||| exists|i: int|
                0 <= i < fields(input).len() && field_reads(
                    parse_field,
                    #[trigger] fields(input)[i],
                    None::<T>,
                )
        },
    }
}

/// Reads one line of input as one value per comma-separated field.
///
/// `parse_field` reads a single field. The empty line is rejected, and one
/// field that does not read as a value rejects the whole line.
pub fn parse_input<T, F: Fn(&str) -> Option<T>>(input: String, parse_field: F) -> (parsed: Option<
    Vec<T>,
>)
    requires
        forall|text: &str| call_requires(parse_field, (text,)),
    ensures
        line_reads(
            parse_field,
            input@,
            match parsed {
                Some(values) => Some(values@),
                None => None,
            },
        ),
{
    if input.as_str().is_empty() {
        return None;
    }
    let mut values: Vec<T> = Vec::new();
    let mut field = String::new();
    let ghost mut done: Seq<Seq<char>> = Seq::empty();
    for ch in it: input.as_str().chars()
        invariant
            it.seq() == input@,
            forall|text: &str| call_requires(parse_field, (text,)),
            fields(input@.take(it.index() as int)) == done.push(field@),
            values@.len() == done.len(),
            forall|i: int|
                0 <= i < done.len() ==> field_reads(
                    parse_field,
                    #[trigger] done[i],
                    Some(values@[i]),
                ),
    {
        proof {
            let upto = input@.take(it.index() + 1);
            assert(upto.drop_last() =~= input@.take(it.index() as int));
            assert(upto.last() == ch);
        }
        if ch == ',' {
            let closed = parse_field(field.as_str());
            assert(field_reads(parse_field, field@, closed));
            match closed {
                Some(value) => {
                    values.push(value);
                },
                None => {
                    proof {
                        lemma_fields_prefix(input@, it.index() as int, done.len() as int);
                    }
                    return None;
                },
            }
            proof {
                done = done.push(field@);
            }
            field = String::new();
        } else {
            let ghost open_field = field@;
            field.push(ch);
            assert(done.push(open_field).drop_last() =~= done);
        }
    }
    assert(input@.take(input@.len() as int) =~= input@);
    let ghost all = done.push(field@);
    let last = parse_field(field.as_str());
    assert(field_reads(parse_field, all[done.len() as int], last));
    match last {
        Some(value) => {
            let ghost read = values@;
            values.push(value);
            assert forall|i: int| 0 <= i < values@.len() implies field_reads(
                parse_field,
                #[trigger] fields(input@)[i],
                Some(values@[i]),
            ) by {
                if i < done.len() {
                    assert(all[i] == done[i]);
                    assert(values@[i] == read[i]);
                }
            }
            Some(values)
        },
        None => None,
    }
}

/// A field that a comma has closed stays what it is, whatever follows.
pub proof fn lemma_fields_prefix(line: Seq<char>, upto: int, i: int)
    requires
        0 <= upto <= line.len(),
        0 <= i < fields(line.take(upto)).len() - 1 || (0 <= i < fields(line.take(upto)).len()
            && upto < line.len() && line[upto] == ','),
    ensures
        i < fields(line).len(),
        fields(line)[i] == fields(line.take(upto))[i],
    decreases line.len() - upto,
{
    if upto == line.len() {
        assert(line.take(upto) =~= line);
    } else {
        let next = line.take(upto + 1);
        assert(next.drop_last() =~= line.take(upto));
        assert(next.last() == line[upto]);
        lemma_fields_prefix(line, upto + 1, i);
    }
}

} // verus!
