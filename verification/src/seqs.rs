//! Splitting, joining and ordering of finite sequences.

use vstd::prelude::*;

verus! {

/// The views of the elements, in order.
pub open spec fn views<T: View>(items: Seq<T>) -> Seq<T::V> {
    items.map_values(|item: T| item@)
}

/// The pieces between separators: one piece more than there are separators.
pub open spec fn split_where<A>(s: Seq<A>, separates: spec_fn(A) -> bool) -> Seq<Seq<A>>
    decreases s.len(),
{
    if s.len() == 0 {
        seq![Seq::empty()]
    } else {
        let before = split_where(s.drop_last(), separates);
        if separates(s.last()) {
            before.push(Seq::empty())
        } else {
            before.drop_last().push(before.last().push(s.last()))
        }
    }
}

/// The predicate that holds of exactly one value.
pub open spec fn is_exactly<A>(value: A) -> spec_fn(A) -> bool {
    |candidate: A| candidate == value
}

/// The pieces between occurrences of one separator value.
pub open spec fn split_at_each<A>(s: Seq<A>, separator: A) -> Seq<Seq<A>> {
    split_where(s, is_exactly(separator))
}

/// The pieces with one separator between neighbours.
pub open spec fn join_with<A>(pieces: Seq<Seq<A>>, separator: A) -> Seq<A>
    decreases pieces.len(),
{
    if pieces.len() == 0 {
        Seq::empty()
    } else if pieces.len() == 1 {
        pieces[0]
    } else {
        join_with(pieces.drop_last(), separator).push(separator) + pieces.last()
    }
}

/// A split has at least one piece.
pub proof fn lemma_split_nonempty<A>(s: Seq<A>, separates: spec_fn(A) -> bool)
    ensures
        split_where(s, separates).len() >= 1,
    decreases s.len(),
{
    if s.len() > 0 {
        lemma_split_nonempty(s.drop_last(), separates);
    }
}

/// No piece of a split holds a separator.
pub proof fn lemma_split_pieces_clear<A>(s: Seq<A>, separates: spec_fn(A) -> bool)
    ensures
        forall|i: int, j: int|
            0 <= i < split_where(s, separates).len() && 0 <= j < split_where(s, separates)[i].len()
                ==> !separates(#[trigger] split_where(s, separates)[i][j]),
    decreases s.len(),
{
    if s.len() > 0 {
        lemma_split_pieces_clear(s.drop_last(), separates);
        lemma_split_nonempty(s.drop_last(), separates);
        let before = split_where(s.drop_last(), separates);
        let all = split_where(s, separates);
        assert forall|i: int, j: int| 0 <= i < all.len() && 0 <= j < all[i].len() implies !separates(
            #[trigger] all[i][j],
        ) by {
            if !separates(s.last()) && i == all.len() - 1 && j < before.last().len() {
                assert(before[before.len() - 1][j] == all[i][j]);
            } else if i < before.len() - 1 || (separates(s.last()) && i < before.len()) {
                assert(before[i][j] == all[i][j]);
            }
        }
    }
}

/// Splitting a sequence and joining the pieces gives the sequence back.
pub proof fn lemma_join_of_split<A>(s: Seq<A>, separator: A)
    ensures
        join_with(split_at_each(s, separator), separator) == s,
    decreases s.len(),
{
    let separates = is_exactly(separator);
    if s.len() > 0 {
        lemma_join_of_split(s.drop_last(), separator);
        lemma_split_nonempty(s.drop_last(), separates);
        let before = split_where(s.drop_last(), separates);
        let all = split_where(s, separates);
        if separates(s.last()) {
            assert(all.drop_last() =~= before);
            assert(join_with(all, separator) =~= s);
        } else {
            assert(all.drop_last() =~= before.drop_last());
            if before.len() == 1 {
                assert(join_with(before, separator) == before[0]);
                assert(all.len() == 1);
                assert(join_with(all, separator) == all[0]);
                assert(before[0].push(s.last()) =~= s);
            } else {
                let base = join_with(before.drop_last(), separator).push(separator);
                assert(join_with(before, separator) == base + before.last());
                assert(all.len() == before.len());
                assert(all.last() == before.last().push(s.last()));
                assert(join_with(all, separator) == base + all.last());
                assert((base + before.last()).push(s.last()) =~= base + all.last());
                assert(s.drop_last().push(s.last()) =~= s);
            }
        }
    } else {
        assert(split_where(s, separates) =~= seq![Seq::empty()]);
        assert(join_with(split_where(s, separates), separator) =~= s);
    }
}

/// Joining pieces that hold no separator and splitting again gives the pieces back.
pub proof fn lemma_split_of_join<A>(pieces: Seq<Seq<A>>, separator: A)
    requires
        pieces.len() > 0,
        forall|i: int, j: int|
            0 <= i < pieces.len() && 0 <= j < pieces[i].len() ==> #[trigger] pieces[i][j]
                != separator,
    ensures
        split_at_each(join_with(pieces, separator), separator) == pieces,
    decreases pieces.len(),
{
    let separates = is_exactly(separator);
    if pieces.len() == 1 {
        lemma_split_clear(pieces[0], separates);
        assert(pieces =~= seq![pieces[0]]);
    } else {
        let head = pieces.drop_last();
        assert forall|i: int, j: int| 0 <= i < head.len() && 0 <= j < head[i].len() implies
            #[trigger] head[i][j] != separator by {
            assert(pieces[i][j] != separator);
        }
        lemma_split_of_join(head, separator);
        let joined = join_with(head, separator).push(separator);
        assert(joined.drop_last() =~= join_with(head, separator));
        assert(split_where(joined, separates) =~= head.push(Seq::empty()));
        assert forall|j: int| 0 <= j < pieces.last().len() implies !separates(
            #[trigger] pieces.last()[j],
        ) by {
            assert(pieces[pieces.len() - 1][j] != separator);
        }
        lemma_split_extend(joined, pieces.last(), separates);
        assert(head.push(Seq::<A>::empty()).drop_last() =~= head);
        assert(Seq::<A>::empty() + pieces.last() =~= pieces.last());
        assert(head.push(pieces.last()) =~= pieces);
    }
}

/// A sequence without separators is its only piece.
proof fn lemma_split_clear<A>(s: Seq<A>, separates: spec_fn(A) -> bool)
    requires
        forall|j: int| 0 <= j < s.len() ==> !separates(#[trigger] s[j]),
    ensures
        split_where(s, separates) == seq![s],
    decreases s.len(),
{
    if s.len() > 0 {
        lemma_split_clear(s.drop_last(), separates);
        assert(s.drop_last().push(s.last()) =~= s);
        assert(split_where(s, separates) =~= seq![s]);
    } else {
        assert(s =~= Seq::empty());
    }
}

/// Appending separator-free text extends the last piece.
proof fn lemma_split_extend<A>(s: Seq<A>, tail: Seq<A>, separates: spec_fn(A) -> bool)
    requires
        forall|j: int| 0 <= j < tail.len() ==> !separates(#[trigger] tail[j]),
    ensures
        split_where(s + tail, separates) == split_where(s, separates).drop_last().push(
            split_where(s, separates).last() + tail,
        ),
    decreases tail.len(),
{
    lemma_split_nonempty(s, separates);
    let pieces = split_where(s, separates);
    if tail.len() == 0 {
        assert(s + tail =~= s);
        assert(pieces.last() + tail =~= pieces.last());
        assert(pieces.drop_last().push(pieces.last()) =~= pieces);
    } else {
        lemma_split_extend(s, tail.drop_last(), separates);
        assert((s + tail).drop_last() =~= s + tail.drop_last());
        assert((pieces.last() + tail.drop_last()).push(tail.last()) =~= pieces.last() + tail);
        assert(pieces.drop_last().push(pieces.last() + tail.drop_last()).drop_last()
            =~= pieces.drop_last());
    }
}

/// Lexicographic order on byte strings, a proper prefix first.
pub open spec fn bytes_less(a: Seq<u8>, b: Seq<u8>) -> bool
    decreases a.len(),
{
    if b.len() == 0 {
        false
    } else if a.len() == 0 {
        true
    } else if a[0] != b[0] {
        a[0] < b[0]
    } else {
        bytes_less(a.skip(1), b.skip(1))
    }
}

/// Byte-string order never holds of a value and itself.
pub proof fn lemma_bytes_less_irreflexive(a: Seq<u8>)
    ensures
        !bytes_less(a, a),
    decreases a.len(),
{
    if a.len() > 0 {
        lemma_bytes_less_irreflexive(a.skip(1));
    }
}

/// Byte-string order is transitive.
pub proof fn lemma_bytes_less_transitive(a: Seq<u8>, b: Seq<u8>, c: Seq<u8>)
    requires
        bytes_less(a, b),
        bytes_less(b, c),
    ensures
        bytes_less(a, c),
    decreases a.len(),
{
    if a.len() > 0 && a[0] == b[0] && b[0] == c[0] {
        lemma_bytes_less_transitive(a.skip(1), b.skip(1), c.skip(1));
    }
}

/// Of two distinct byte strings one comes first.
pub proof fn lemma_bytes_less_total(a: Seq<u8>, b: Seq<u8>)
    requires
        a != b,
    ensures
        bytes_less(a, b) || bytes_less(b, a),
    decreases a.len(),
{
    if a.len() == 0 {
        assert(a =~= Seq::empty());
        if b.len() == 0 {
            assert(b =~= a);
        }
    } else if b.len() > 0 && a[0] == b[0] {
        if a.skip(1) == b.skip(1) {
            assert(a =~= seq![a[0]] + a.skip(1));
            assert(b =~= seq![b[0]] + b.skip(1));
        } else {
            lemma_bytes_less_total(a.skip(1), b.skip(1));
        }
    }
}

/// Tells whether two byte strings are the same.
pub fn bytes_equal(a: &[u8], b: &[u8]) -> (equal: bool)
    ensures
        equal == (a@ == b@),
{
    if a.len() != b.len() {
        return false;
    }
    let mut i: usize = 0;
    while i < a.len()
        invariant
            a.len() == b.len(),
            i <= a.len(),
            forall|k: int| 0 <= k < i ==> a@[k] == b@[k],
        decreases a.len() - i,
    {
        if a[i] != b[i] {
            return false;
        }
        i = i + 1;
    }
    assert(a@ =~= b@);
    true
}

/// Tells whether `a` comes before `b` in byte-string order.
pub fn bytes_before(a: &[u8], b: &[u8]) -> (before: bool)
    ensures
        before == bytes_less(a@, b@),
{
    let mut i: usize = 0;
    proof {
        assert(a@.skip(0) =~= a@);
        assert(b@.skip(0) =~= b@);
    }
    while i < a.len() && i < b.len()
        invariant
            i <= a.len(),
            i <= b.len(),
            bytes_less(a@, b@) == bytes_less(a@.skip(i as int), b@.skip(i as int)),
        decreases a.len() - i,
    {
        if a[i] != b[i] {
            return a[i] < b[i];
        }
        proof {
            assert(a@.skip(i as int).skip(1) =~= a@.skip(i + 1));
            assert(b@.skip(i as int).skip(1) =~= b@.skip(i + 1));
        }
        i = i + 1;
    }
    i < b.len()
}

/// The position of the first occurrence of a value, or the length where there is none.
pub open spec fn first_index_of<A>(s: Seq<A>, value: A) -> int
    decreases s.len(),
{
    if s.len() == 0 || s[0] == value {
        0
    } else {
        1 + first_index_of(s.skip(1), value)
    }
}

/// The first occurrence is an occurrence, and nothing before it is one.
pub proof fn lemma_first_index_of<A>(s: Seq<A>, value: A)
    ensures
        0 <= first_index_of(s, value) <= s.len(),
        first_index_of(s, value) < s.len() ==> s[first_index_of(s, value)] == value,
        forall|k: int| 0 <= k < first_index_of(s, value) ==> #[trigger] s[k] != value,
        first_index_of(s, value) == s.len() <==> !s.contains(value),
    decreases s.len(),
{
    if s.len() > 0 && s[0] != value {
        lemma_first_index_of(s.skip(1), value);
        assert forall|k: int| 0 <= k < first_index_of(s, value) implies #[trigger] s[k]
            != value by {
            if k > 0 {
                assert(s.skip(1)[k - 1] == s[k]);
            }
        }
        if s.contains(value) {
            let p = choose|p: int| 0 <= p < s.len() && s[p] == value;
            assert(s.skip(1)[p - 1] == value);
        }
    } else if s.len() > 0 {
        assert(s.contains(value));
    }
}

/// Finds the first occurrence of a byte at or behind `start`, or the length.
pub fn find_byte(s: &[u8], start: usize, value: u8) -> (index: usize)
    requires
        start <= s.len(),
    ensures
        start <= index <= s.len(),
        index == start + first_index_of(s@.skip(start as int), value),
        index < s.len() ==> s@[index as int] == value,
{
    let mut i: usize = start;
    while i < s.len() && s[i] != value
        invariant
            start <= i <= s.len(),
            start + first_index_of(s@.skip(start as int), value) == i + first_index_of(
                s@.skip(i as int),
                value,
            ),
        decreases s.len() - i,
    {
        proof {
            assert(s@.skip(i as int).skip(1) =~= s@.skip(i + 1));
        }
        i = i + 1;
    }
    i
}

/// A decimal digit.
pub open spec fn is_decimal_digit(c: u8) -> bool {
    48 <= c <= 57
}

/// A byte string of decimal digits.
pub open spec fn all_decimal_digits(s: Seq<u8>) -> bool {
    forall|i: int| 0 <= i < s.len() ==> is_decimal_digit(#[trigger] s[i])
}

/// The number that decimal digits write.
pub open spec fn decimal_value(digits: Seq<u8>) -> nat
    decreases digits.len(),
{
    if digits.len() == 0 {
        0
    } else {
        decimal_value(digits.drop_last()) * 10 + (digits.last() - 48) as nat
    }
}

/// More digits never write a smaller number.
proof fn lemma_decimal_value_grows(digits: Seq<u8>, count: int)
    requires
        0 <= count <= digits.len(),
        all_decimal_digits(digits),
    ensures
        decimal_value(digits.take(count)) <= decimal_value(digits),
    decreases digits.len() - count,
{
    if count == digits.len() {
        assert(digits.take(count) =~= digits);
    } else {
        lemma_decimal_value_grows(digits, count + 1);
        assert(digits.take(count + 1).drop_last() =~= digits.take(count));
        assert(is_decimal_digit(digits[count]));
    }
}

/// Tells whether a byte string holds decimal digits alone.
pub fn are_decimal_digits(s: &[u8]) -> (all: bool)
    ensures
        all == all_decimal_digits(s@),
{
    let mut i: usize = 0;
    while i < s.len()
        invariant
            i <= s.len(),
            forall|k: int| 0 <= k < i ==> is_decimal_digit(#[trigger] s@[k]),
        decreases s.len() - i,
    {
        if s[i] < 48 || s[i] > 57 {
            assert(!is_decimal_digit(s@[i as int]));
            return false;
        }
        i = i + 1;
    }
    true
}

/// Reads a decimal number, unless it is too large.
pub fn parse_decimal(digits: &[u8]) -> (value: Option<u64>)
    requires
        all_decimal_digits(digits@),
    ensures
        value is Some <==> decimal_value(digits@) <= u64::MAX,
        value matches Some(number) ==> number == decimal_value(digits@),
{
    let mut value: u64 = 0;
    let mut i: usize = 0;
    proof {
        assert(digits@.take(0) =~= Seq::empty());
    }
    while i < digits.len()
        invariant
            i <= digits.len(),
            all_decimal_digits(digits@),
            value == decimal_value(digits@.take(i as int)),
        decreases digits.len() - i,
    {
        proof {
            assert(digits@.take(i + 1).drop_last() =~= digits@.take(i as int));
            lemma_decimal_value_grows(digits@, i + 1);
            assert(is_decimal_digit(digits@[i as int]));
        }
        let digit: u64 = (digits[i] - 48) as u64;
        let tens: u64 = match value.checked_mul(10) {
            Some(tens) => tens,
            None => {
                return None;
            },
        };
        value = match tens.checked_add(digit) {
            Some(sum) => sum,
            None => {
                return None;
            },
        };
        i = i + 1;
    }
    proof {
        assert(digits@.take(digits@.len() as int) =~= digits@);
    }
    Some(value)
}

/// Copies a byte slice.
pub fn copy_bytes(source: &[u8]) -> (copy: Vec<u8>)
    ensures
        copy@ == source@,
{
    let mut copy: Vec<u8> = Vec::new();
    copy.extend_from_slice(source);
    assert(copy@ =~= source@);
    copy
}

/// Splits a byte string at each occurrence of `separator`.
pub fn split_bytes(s: &[u8], separator: u8) -> (pieces: Vec<Vec<u8>>)
    ensures
        views(pieces@) == split_at_each(s@, separator),
{
    let mut done: Vec<Vec<u8>> = Vec::new();
    let mut current: Vec<u8> = Vec::new();
    let mut i: usize = 0;
    proof {
        assert(s@.take(0) =~= Seq::empty());
        assert(views(done@).push(current@) =~= split_at_each(s@.take(0), separator));
    }
    while i < s.len()
        invariant
            i <= s.len(),
            views(done@).push(current@) == split_at_each(s@.take(i as int), separator),
        decreases s.len() - i,
    {
        proof {
            assert(s@.take(i + 1).drop_last() =~= s@.take(i as int));
            assert(views(done@).push(current@).drop_last() =~= views(done@));
        }
        let ghost before = done@;
        let ghost piece = current@;
        if s[i] == separator {
            done.push(current);
            current = Vec::new();
            proof {
                assert(views(done@) =~= views(before).push(piece));
                assert(current@ =~= Seq::empty());
            }
        } else {
            current.push(s[i]);
        }
        i = i + 1;
    }
    let ghost before = done@;
    let ghost piece = current@;
    done.push(current);
    proof {
        assert(s@.take(s@.len() as int) =~= s@);
        assert(views(done@) =~= views(before).push(piece));
    }
    done
}

} // verus!
