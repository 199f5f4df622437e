//! Lowering the outputs of an authoring configuration: destinations, symlinks, limits, overlays
//! and assets.

use vstd::prelude::*;
use vstd::utf8::*;

use crate::limits::{MAX_ARTIFACT_BLOB_BYTES, MAX_PREPARED_UNIQUE_ARTIFACT_BYTES};
use crate::prepare_error::StaticPrepareError;
use crate::seqs;
use crate::text;
use crate::text::{
    characters, concat2, concat3, concat4, debug_text, decimal_text, from_characters, split_text,
    text_equal, text_skip, text_starts_with,
};
use crate::transform::PrepareErrorModel;

verus! {

/// A failure for the given reason.
pub open spec fn invalid_config(detail: Seq<char>) -> PrepareErrorModel {
    StaticPrepareError::InvalidConfig { detail }
}

fn invalid(detail: String) -> (error: StaticPrepareError)
    ensures
        error@ == invalid_config(detail@),
{
    StaticPrepareError::InvalidConfig { detail }
}

/// A text or a failure, as contracts speak of them.
pub open spec fn text_view(outcome: Result<String, StaticPrepareError>) -> Result<
    Seq<char>,
    PrepareErrorModel,
> {
    match outcome {
        Ok(value) => Ok(value@),
        Err(error) => Err(error@),
    }
}

/// A text starts at the home directory.
pub open spec fn is_home_relative(value: Seq<char>) -> bool {
    "~/"@.is_prefix_of(value)
}

/// What follows the home directory.
pub open spec fn below_home(value: Seq<char>) -> Seq<char> {
    value.skip("~/"@.len() as int)
}

fn strip_home(value: &str) -> (rest: Option<String>)
    ensures
        match rest {
            Some(tail) => is_home_relative(value@) && tail@ == below_home(value@),
            None => !is_home_relative(value@),
        },
{
    proof {
        reveal_strlit("~/");
    }
    if text_starts_with(value, "~/") {
        Some(text_skip(value, 2))
    } else {
        None
    }
}

/// A text is an absolute path.
pub open spec fn is_absolute_text(value: Seq<char>) -> bool {
    value.len() > 0 && value[0] == '/'
}

/// A destination below the home authority. One that starts at the home directory bypasses the
/// target; any other relative one lies below the target, which must lie in the home
/// directory itself.
pub open spec fn home_destination(target: Seq<char>, destination: Seq<char>) -> Result<
    Seq<char>,
    PrepareErrorModel,
> {
    if is_home_relative(destination) {
        Ok(below_home(destination))
    } else if destination == "~"@ || is_absolute_text(destination) {
        Err(
            invalid_config("unsupported output destination "@ + text::debug_notation(destination)),
        )
    } else if target == "~"@ {
        Ok(destination)
    } else if is_home_relative(target) {
        Ok(below_home(target) + "/"@ + destination)
    } else {
        Err(
            invalid_config(
                "config target "@ + text::debug_notation(target)
                    + " must be `~` or `~/`-relative"@,
            ),
        )
    }
}

/// Maps an authoring-spelled destination onto a home-authority path.
pub fn home_relative_destination(target: &str, destination: &str) -> (mapped: Result<
    String,
    StaticPrepareError,
>)
    ensures
        text_view(mapped) == home_destination(target@, destination@),
{
    match strip_home(destination) {
        Some(rest) => {
            return Ok(rest);
        },
        None => {},
    }
    let all = characters(destination);
    if text_equal(destination, "~") || (all.len() > 0 && all[0] == '/') {
        return Err(
            invalid(
                concat2("unsupported output destination ", debug_text(destination).as_str()),
            ),
        );
    }
    if text_equal(target, "~") {
        return Ok(destination.to_owned());
    }
    match strip_home(target) {
        Some(rest) => Ok(concat3(rest.as_str(), "/", destination)),
        None => Err(
            invalid(
                concat3(
                    "config target ",
                    debug_text(target).as_str(),
                    " must be `~` or `~/`-relative",
                ),
            ),
        ),
    }
}

/// A destination that was given relative, below a target that is home or has its own relative
/// place below home, is never mapped to an absolute path.
pub proof fn lemma_destinations_stay_relative(target: Seq<char>, destination: Seq<char>)
    requires
        is_home_relative(destination) ==> !is_absolute_text(below_home(destination)),
        is_home_relative(target) ==> below_home(target).len() > 0 && !is_absolute_text(
            below_home(target),
        ),
    ensures
        home_destination(target, destination) matches Ok(mapped) ==> !is_absolute_text(mapped),
{
    if home_destination(target, destination) is Ok && !is_home_relative(destination) && target
        != "~"@ {
        let mapped = home_destination(target, destination)->Ok_0;
        assert(mapped[0] == below_home(target)[0]);
    }
}

/// A destination is mapped in one of three ways: below the home directory where it says so, else
/// below the target of the configuration. No other destination, and no target outside the home
/// directory, is mapped at all.
pub proof fn lemma_destinations_lie_below_home_or_target(
    target: Seq<char>,
    destination: Seq<char>,
    rest: Seq<char>,
)
    ensures
        home_destination(target, "~/"@ + rest) == Ok::<Seq<char>, PrepareErrorModel>(rest),
        home_destination(target, "~"@) is Err,
        destination.len() > 0 && destination[0] == '/' ==> home_destination(target, destination)
            is Err,
        destination.len() > 0 && destination[0] != '~' && destination[0] != '/' ==> {
            &&& home_destination("~"@, destination) == Ok::<Seq<char>, PrepareErrorModel>(
                destination,
            )
            &&& home_destination("~/"@ + rest, destination) == Ok::<Seq<char>, PrepareErrorModel>(
                rest + "/"@ + destination,
            )
            &&& target.len() > 0 && target[0] != '~' ==> home_destination(target, destination)
                is Err
        },
{
    reveal_strlit("~/");
    reveal_strlit("~");
    let below = "~/"@ + rest;
    assert(below.take(2) =~= "~/"@);
    assert("~/"@.is_prefix_of(below));
    assert(below_home(below) =~= rest);
    assert(below != "~"@) by {
        assert(below.len() >= 2);
    }
    if destination.len() > 0 && destination[0] != '~' {
        assert(!"~/"@.is_prefix_of(destination)) by {
            if "~/"@.is_prefix_of(destination) {
                assert(destination[0] == "~/"@[0]);
            }
        }
        assert("~"@[0] == '~');
    }
    if target.len() > 0 && target[0] != '~' {
        assert(!"~/"@.is_prefix_of(target)) by {
            if "~/"@.is_prefix_of(target) {
                assert(target[0] == "~/"@[0]);
            }
        }
        assert("~"@[0] == '~');
    }
    assert(!"~/"@.is_prefix_of("~"@));
}

/// The pieces of a path in text.
pub open spec fn segments(value: Seq<char>) -> Seq<Seq<char>> {
    seqs::split_at_each(value, '/')
}

/// How many pieces two lists have in common at their start.
pub open spec fn common_start(left: Seq<Seq<char>>, right: Seq<Seq<char>>) -> nat
    decreases left.len(),
{
    if left.len() == 0 || right.len() == 0 || left[0] != right[0] {
        0
    } else {
        1 + common_start(left.skip(1), right.skip(1))
    }
}

/// The way from a directory to a target, in pieces: up to what they have in common, then down.
pub open spec fn relative_pieces(parent: Seq<Seq<char>>, target: Seq<Seq<char>>) -> Seq<Seq<char>> {
    let common = common_start(parent, target);
    Seq::new((parent.len() - common) as nat, |i: int| ".."@) + target.skip(common as int)
}

/// A symlink's target, spelled relative to the directory of the link.
pub open spec fn relative_target(link: Seq<char>, target: Seq<char>) -> Seq<char> {
    seqs::join_with(relative_pieces(segments(link).drop_last(), segments(target)), '/')
}

proof fn lemma_common_start(left: Seq<Seq<char>>, right: Seq<Seq<char>>)
    ensures
        common_start(left, right) <= left.len(),
        common_start(left, right) <= right.len(),
        left.take(common_start(left, right) as int) == right.take(
            common_start(left, right) as int,
        ),
    decreases left.len(),
{
    let common = common_start(left, right) as int;
    if common > 0 {
        lemma_common_start(left.skip(1), right.skip(1));
        assert(left.take(common) =~= seq![left[0]] + left.skip(1).take(common - 1));
        assert(right.take(common) =~= seq![right[0]] + right.skip(1).take(common - 1));
    } else {
        assert(left.take(0) =~= right.take(0));
    }
}

fn same_characters(left: &Vec<char>, right: &Vec<char>) -> (same: bool)
    ensures
        same == (left@ == right@),
{
    if left.len() != right.len() {
        return false;
    }
    let mut i: usize = 0;
    while i < left.len()
        invariant
            i <= left.len(),
            left@.len() == right@.len(),
            forall|k: int| 0 <= k < i ==> left@[k] == right@[k],
        decreases left.len() - i,
    {
        if left[i] != right[i] {
            return false;
        }
        i = i + 1;
    }
    assert(left@ =~= right@);
    true
}

fn count_common(left: &Vec<Vec<char>>, count: usize, right: &Vec<Vec<char>>) -> (common: usize)
    requires
        count <= left.len(),
    ensures
        common == common_start(seqs::views(left@).take(count as int), seqs::views(right@)),
{
    let ghost mine = seqs::views(left@).take(count as int);
    let ghost other = seqs::views(right@);
    let mut i: usize = 0;
    proof {
        assert(mine.skip(0) =~= mine);
        assert(other.skip(0) =~= other);
    }
    while i < count && i < right.len()
        invariant
            i <= count <= left.len(),
            i <= right.len(),
            mine == seqs::views(left@).take(count as int),
            other == seqs::views(right@),
            common_start(mine, other) == i + common_start(mine.skip(i as int), other.skip(i as int)),
        decreases count - i,
    {
        proof {
            assert(mine[i as int] == left@[i as int]@);
            assert(other[i as int] == right@[i as int]@);
            assert(mine.skip(i as int)[0] == mine[i as int]);
            assert(other.skip(i as int)[0] == other[i as int]);
            assert(mine.skip(i as int).skip(1) =~= mine.skip(i + 1));
            assert(other.skip(i as int).skip(1) =~= other.skip(i + 1));
        }
        if !same_characters(&left[i], &right[i]) {
            return i;
        }
        i = i + 1;
    }
    i
}

/// Spells a symlink's target relative to the directory of the link.
pub fn relative_symlink_target(link: &str, target: &str) -> (spelled: String)
    ensures
        spelled@ == relative_target(link@, target@),
{
    let link_segments = split_text(link, '/');
    let target_segments = split_text(target, '/');
    proof {
        seqs::lemma_split_nonempty(link@, seqs::is_exactly('/'));
        seqs::lemma_split_nonempty(target@, seqs::is_exactly('/'));
        assert(seqs::views(link_segments@).len() == link_segments@.len());
        assert(seqs::views(target_segments@).len() == target_segments@.len());
    }
    let parents: usize = link_segments.len() - 1;
    let common = count_common(&link_segments, parents, &target_segments);
    let ghost parent = segments(link@).drop_last();
    let ghost wanted = segments(target@);
    let ghost pieces = relative_pieces(parent, wanted);
    proof {
        assert(seqs::views(link_segments@).take(parents as int) =~= parent);
        lemma_common_start(parent, wanted);
    }
    let ups: usize = parents - common;
    let downs: usize = target_segments.len() - common;
    let mut out: Vec<char> = Vec::new();
    let mut i: usize = 0;
    proof {
        reveal_strlit("..");
        assert(pieces.take(0) =~= Seq::<Seq<char>>::empty());
        assert(out@ =~= seqs::join_with(pieces.take(0), '/'));
    }
    while i < ups
        invariant
            i <= ups,
            ups <= pieces.len(),
            forall|k: int| 0 <= k < ups ==> #[trigger] pieces[k] == ".."@,
            out@ == seqs::join_with(pieces.take(i as int), '/'),
        decreases ups - i,
    {
        let ghost before = out@;
        proof {
            assert(pieces.take(i + 1).drop_last() =~= pieces.take(i as int));
            assert(pieces.take(i + 1).last() == pieces[i as int]);
            reveal_strlit("..");
            assert(".."@ =~= seq!['.', '.']);
        }
        if i > 0 {
            out.push('/');
        }
        out.push('.');
        out.push('.');
        proof {
            assert(out@ =~= seqs::join_with(pieces.take(i + 1), '/'));
        }
        i = i + 1;
    }
    let mut k: usize = 0;
    while k < downs
        invariant
            k <= downs,
            downs == target_segments@.len() - common,
            common <= target_segments@.len(),
            ups + downs == pieces.len(),
            wanted == seqs::views(target_segments@),
            forall|j: int| 0 <= j < downs ==> #[trigger] pieces[ups + j] == wanted[common + j],
            out@ == seqs::join_with(pieces.take(ups + k), '/'),
        decreases downs - k,
    {
        proof {
            let at = ups + k;
            assert(pieces.take(at + 1).drop_last() =~= pieces.take(at));
            assert(pieces.take(at + 1).last() == pieces[ups + k]);
            assert(wanted[common + k] == target_segments@[common + k]@);
        }
        if k > 0 || ups > 0 {
            out.push('/');
        }
        out.extend_from_slice(target_segments[common + k].as_slice());
        proof {
            assert(out@ =~= seqs::join_with(pieces.take(ups + k + 1), '/'));
        }
        k = k + 1;
    }
    proof {
        assert(pieces.take(pieces.len() as int) =~= pieces);
    }
    from_characters(out.as_slice())
}

/// Where the pieces of a relative way lead to from a directory: up with `..`, down with
/// anything else.
pub open spec fn followed(directory: Seq<Seq<char>>, way: Seq<Seq<char>>) -> Seq<Seq<char>>
    decreases way.len(),
{
    if way.len() == 0 {
        directory
    } else if way[0] == ".."@ && directory.len() > 0 {
        followed(directory.drop_last(), way.skip(1))
    } else {
        followed(directory.push(way[0]), way.skip(1))
    }
}

proof fn lemma_following_down(directory: Seq<Seq<char>>, way: Seq<Seq<char>>)
    requires
        forall|i: int| 0 <= i < way.len() ==> #[trigger] way[i] != ".."@,
    ensures
        followed(directory, way) == directory + way,
    decreases way.len(),
{
    if way.len() > 0 {
        let rest = way.skip(1);
        assert forall|i: int| 0 <= i < rest.len() implies #[trigger] rest[i] != ".."@ by {
            assert(rest[i] == way[i + 1]);
        }
        assert(way[0] != ".."@);
        lemma_following_down(directory.push(way[0]), rest);
        assert(directory.push(way[0]) + rest =~= directory + way);
    } else {
        assert(directory + way =~= directory);
    }
}

proof fn lemma_following_up(directory: Seq<Seq<char>>, ups: nat, way: Seq<Seq<char>>)
    requires
        ups <= directory.len(),
    ensures
        followed(directory, Seq::new(ups, |i: int| ".."@) + way) == followed(
            directory.take(directory.len() - ups),
            way,
        ),
    decreases ups,
{
    let all = Seq::new(ups, |i: int| ".."@) + way;
    if ups > 0 {
        let fewer = (ups - 1) as nat;
        assert(all.skip(1) =~= Seq::new(fewer, |i: int| ".."@) + way);
        lemma_following_up(directory.drop_last(), fewer, way);
        assert(directory.drop_last().take(directory.drop_last().len() - fewer) =~= directory.take(
            directory.len() - ups,
        ));
    } else {
        assert(all =~= way);
        assert(directory.take(directory.len() as int) =~= directory);
    }
}

/// A spelled target leads back to the target: followed from the directory of the link, its
/// pieces end at the target, as long as the target itself does not go up.
pub proof fn lemma_spelled_target_leads_to_the_target(link: Seq<char>, target: Seq<char>)
    requires
        forall|i: int| 0 <= i < segments(target).len() ==> #[trigger] segments(target)[i] != ".."@,
    ensures
        followed(
            segments(link).drop_last(),
            relative_pieces(segments(link).drop_last(), segments(target)),
        ) == segments(target),
{
    let parent = segments(link).drop_last();
    let wanted = segments(target);
    let common = common_start(parent, wanted);
    lemma_common_start(parent, wanted);
    let down = wanted.skip(common as int);
    lemma_following_up(parent, (parent.len() - common) as nat, down);
    assert forall|i: int| 0 <= i < down.len() implies #[trigger] down[i] != ".."@ by {
        assert(down[i] == wanted[i + common]);
    }
    lemma_following_down(parent.take(common as int), down);
    assert(wanted.take(common as int) + down =~= wanted);
}

/// A piece of a target goes down: it is neither empty nor one of the two dotted ones.
pub open spec fn is_downward(piece: Seq<char>) -> bool {
    piece != ".."@ && piece != "."@ && piece.len() > 0
}

/// A spelled target only goes down.
pub open spec fn goes_down(spelled: Seq<char>) -> bool {
    forall|i: int| 0 <= i < segments(spelled).len() ==> is_downward(#[trigger] segments(spelled)[i])
}

/// Tells whether a spelled target only goes down, as canonical symlinks must.
pub fn target_goes_down(spelled: &str) -> (down: bool)
    ensures
        down == goes_down(spelled@),
{
    let pieces = split_text(spelled, '/');
    let ghost all = segments(spelled@);
    let mut i: usize = 0;
    while i < pieces.len()
        invariant
            i <= pieces.len(),
            all == seqs::views(pieces@),
            all == segments(spelled@),
            forall|k: int| 0 <= k < i ==> is_downward(#[trigger] all[k]),
        decreases pieces.len() - i,
    {
        let piece = from_characters(pieces[i].as_slice());
        proof {
            assert(all[i as int] == pieces@[i as int]@);
        }
        if pieces[i].len() == 0 || text_equal(piece.as_str(), "..") || text_equal(
            piece.as_str(),
            ".",
        ) {
            proof {
                assert(!is_downward(all[i as int]));
            }
            return false;
        }
        i = i + 1;
    }
    true
}

/// What is wrong with the length of an output, if anything.
pub open spec fn length_problem(byte_len: nat, destination: Seq<char>) -> Option<
    PrepareErrorModel,
> {
    if byte_len > MAX_ARTIFACT_BLOB_BYTES {
        Some(
            invalid_config(
                "authoring output "@ + text::debug_notation(destination) + " has "@ + text::decimal(
                    byte_len,
                ) + " bytes; per-artifact limit is "@ + text::decimal(
                    MAX_ARTIFACT_BLOB_BYTES as nat,
                ),
            ),
        )
    } else {
        None
    }
}

/// Checks the length of an output.
pub fn check_authoring_response_len(byte_len: usize, destination: &str) -> (checked: Result<
    u64,
    StaticPrepareError,
>)
    ensures
        match checked {
            Ok(length) => length == byte_len && length_problem(byte_len as nat, destination@)
                is None,
            Err(error) => length_problem(byte_len as nat, destination@) == Some(error@),
        },
{
    if byte_len as u64 > MAX_ARTIFACT_BLOB_BYTES {
        let start = concat3("authoring output ", debug_text(destination).as_str(), " has ");
        let detail = concat4(
            start.as_str(),
            decimal_text(byte_len as u64).as_str(),
            " bytes; per-artifact limit is ",
            decimal_text(MAX_ARTIFACT_BLOB_BYTES).as_str(),
        );
        return Err(invalid(detail));
    }
    Ok(byte_len as u64)
}

/// The bytes of all outputs together with one more output, or why it is refused.
pub open spec fn reserved(total: u64, byte_len: nat, destination: Seq<char>) -> Result<
    u64,
    PrepareErrorModel,
> {
    match length_problem(byte_len, destination) {
        Some(error) => Err(error),
        None => if total + byte_len > u64::MAX {
            Err(invalid_config("authoring artifact byte total overflows"@))
        } else if total + byte_len > MAX_PREPARED_UNIQUE_ARTIFACT_BYTES {
            Err(
                invalid_config(
                    "authoring artifacts exceed the prepared-plan byte limit of "@ + text::decimal(
                        MAX_PREPARED_UNIQUE_ARTIFACT_BYTES as nat,
                    ) + " bytes"@,
                ),
            )
        } else {
            Ok((total + byte_len) as u64)
        },
    }
}

/// Counts the bytes of one more output; a refused one leaves the total as it was.
pub fn reserve_authoring_artifact_bytes(total: &mut u64, byte_len: usize, destination: &str) -> (counted:
    Result<(), StaticPrepareError>)
    ensures
        match counted {
            Ok(_) => reserved(*old(total), byte_len as nat, destination@) == Ok::<
                u64,
                PrepareErrorModel,
            >(*final(total)),
            Err(error) => reserved(*old(total), byte_len as nat, destination@) == Err::<
                u64,
                PrepareErrorModel,
            >(error@) && *final(total) == *old(total),
        },
{
    let length: u64 = match check_authoring_response_len(byte_len, destination) {
        Ok(length) => length,
        Err(error) => {
            return Err(error);
        },
    };
    let before: u64 = *total;
    let projected: u64 = match before.checked_add(length) {
        Some(sum) => sum,
        None => {
            return Err(invalid("authoring artifact byte total overflows".to_owned()));
        },
    };
    if projected > MAX_PREPARED_UNIQUE_ARTIFACT_BYTES {
        return Err(
            invalid(
                concat3(
                    "authoring artifacts exceed the prepared-plan byte limit of ",
                    decimal_text(MAX_PREPARED_UNIQUE_ARTIFACT_BYTES).as_str(),
                    " bytes",
                ),
            ),
        );
    }
    *total = projected;
    Ok(())
}

/// Bytes are reserved exactly where an artifact and all artifacts together stay within their
/// limits, and then every byte counts.
pub proof fn lemma_reserved_bytes_are_within_the_limits(
    total: u64,
    byte_len: nat,
    destination: Seq<char>,
)
    requires
        total <= MAX_PREPARED_UNIQUE_ARTIFACT_BYTES,
    ensures
        reserved(total, byte_len, destination) is Ok <==> byte_len <= MAX_ARTIFACT_BLOB_BYTES
            && total + byte_len <= MAX_PREPARED_UNIQUE_ARTIFACT_BYTES,
        reserved(total, byte_len, destination) matches Ok(sum) ==> sum == total + byte_len,
        length_problem(byte_len, destination) is Some <==> byte_len > MAX_ARTIFACT_BLOB_BYTES,
{
}

} // verus!
