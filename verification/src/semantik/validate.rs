//! Pre-flight rules: what is rejected before it reaches the wire.

use crate::semantik::error;
use crate::semantik::error::Error;
use crate::semantik::float;
use crate::semantik::float::Float32;
use crate::semantik::limits::{
    MAX_METADATA_KEYS, MAX_METADATA_KEY_LEN, MAX_METADATA_TOTAL_BYTES, MAX_METADATA_VALUE_LEN,
    MAX_TEXT_BYTES, MAX_VECTOR_DIM,
};
use crate::semantik::metadata;
use crate::semantik::metadata::Metadata;
use crate::text;
use crate::text::{chars_of, debug_str, len_in_bytes, push_decimal, push_text, trim_bounds};
use vstd::prelude::*;

verus! {

/// The outcome of a pre-flight check: success where there is no problem,
/// else a client-side rejection that names it.
pub open spec fn verdict(res: Result<(), Error>, problem: Option<Seq<char>>) -> bool {
    match problem {
        None => res is Ok,
        Some(message) => res is Err && res->Err_0@ == error::preflight_view(message),
    }
}

/// The first of two problems.
pub open spec fn first_problem(a: Option<Seq<char>>, b: Option<Seq<char>>) -> Option<Seq<char>> {
    match a {
        Some(message) => Some(message),
        None => b,
    }
}

/// Reject with a fixed message.
pub fn reject(message: &str) -> (res: Result<(), Error>)
    ensures
        verdict(res, Some(message@)),
{
    Err(Error::preflight(message.to_owned()))
}

/// Reject with a number in the message.
pub fn reject_number(before: &str, n: u64, after: &str) -> (res: Result<(), Error>)
    ensures
        verdict(res, Some(before@ + text::decimal(n as nat) + after@)),
{
    let mut out = before.to_owned();
    push_decimal(&mut out, n);
    push_text(&mut out, after);
    Err(Error::preflight(out))
}

/// Reject with two numbers in the message.
pub fn reject_numbers(before: &str, n: u64, between: &str, m: u64, after: &str) -> (res: Result<
    (),
    Error,
>)
    ensures
        verdict(
            res,
            Some(
                before@ + text::decimal(n as nat) + between@ + text::decimal(m as nat) + after@,
            ),
        ),
{
    let mut out = before.to_owned();
    push_decimal(&mut out, n);
    push_text(&mut out, between);
    push_decimal(&mut out, m);
    push_text(&mut out, after);
    Err(Error::preflight(out))
}

/// Reject with a message that ends in the second of two numbers.
pub fn reject_pair(before: &str, n: u64, between: &str, m: u64) -> (res: Result<(), Error>)
    ensures
        verdict(res, Some(before@ + text::decimal(n as nat) + between@ + text::decimal(m as nat))),
{
    let mut out = before.to_owned();
    push_decimal(&mut out, n);
    push_text(&mut out, between);
    push_decimal(&mut out, m);
    Err(Error::preflight(out))
}

// ---------------------------------------------------------------------
// Keys and characters
// ---------------------------------------------------------------------

/// Is anything in `s` besides white space?
pub open spec fn is_non_blank(s: Seq<char>) -> bool {
    exists|i: int| 0 <= i < s.len() && !text::is_white_space(#[trigger] s[i])
}

/// Non-empty check on an API key. Nothing is asked of a key beyond that
/// it is not empty or white space only: the server is the source of truth
/// for key validity.
pub fn api_key_non_empty(k: &str) -> (res: bool)
    ensures
        res == is_non_blank(k@),
{
    let chars = chars_of(k);
    let bounds = trim_bounds(chars.as_slice());
    proof {
        text::lemma_trimmed_empty(k@);
    }
    bounds.0 < bounds.1
}

/// Is `c` an ASCII control character?
pub open spec fn is_control(c: char) -> bool {
    (c as u32) < 0x20 || c as u32 == 0x7f
}

/// Does `s` hold an ASCII control character?
pub open spec fn holds_control(s: Seq<char>) -> bool {
    exists|i: int| 0 <= i < s.len() && is_control(#[trigger] s[i])
}

/// Reports whether `s` contains any ASCII control character
/// (`0x00`-`0x1F` or `0x7F`).
pub fn has_control_char(s: &str) -> (res: bool)
    ensures
        res == holds_control(s@),
{
    let chars = chars_of(s);
    let mut i: usize = 0;
    while i < chars.len()
        invariant
            chars@ == s@,
            i <= chars@.len(),
            forall|j: int| 0 <= j < i ==> !is_control(#[trigger] s@[j]),
        decreases chars@.len() - i,
    {
        let c: u32 = chars[i] as u32;
        if c < 0x20 || c == 0x7f {
            assert(is_control(s@[i as int]));
            return true;
        }
        i = i + 1;
    }
    false
}

// ---------------------------------------------------------------------
// Targets
// ---------------------------------------------------------------------

/// What is wrong with a number of dimensions.
pub open spec fn dimensions_problem(dim: nat) -> Option<Seq<char>> {
    if dim == 0 {
        Some("dimensions must be greater than 0"@)
    } else if dim > MAX_VECTOR_DIM {
        Some(
            "dimensions "@ + text::decimal(dim) + " exceeds maximum "@ + text::decimal(
                MAX_VECTOR_DIM as nat,
            ),
        )
    } else {
        None
    }
}

/// Enforce `1 <= dim <= MAX_VECTOR_DIM`.
pub fn validate_dimensions(dim: u16) -> (res: Result<(), Error>)
    ensures
        verdict(res, dimensions_problem(dim as nat)),
{
    if dim == 0 {
        return reject("dimensions must be greater than 0");
    }
    if dim > MAX_VECTOR_DIM {
        return reject_pair(
            "dimensions ",
            dim as u64,
            " exceeds maximum ",
            MAX_VECTOR_DIM as u64,
        );
    }
    Ok(())
}

/// What is wrong with the target of a request.
pub open spec fn target_problem(
    namespace: Seq<char>,
    model: Seq<char>,
    dimensions: nat,
) -> Option<Seq<char>> {
    if namespace.len() == 0 {
        Some("namespace must not be empty"@)
    } else if model.len() == 0 {
        Some("model must not be empty"@)
    } else {
        dimensions_problem(dimensions)
    }
}

/// Enforce the three targeting fields every publish, search and subscribe
/// request must carry: a non-empty `namespace`, a non-empty `model`, and
/// an in-range `dimensions`. None of them has a default: an unset field
/// is an error rather than a request to a shared namespace.
pub fn validate_target(namespace: &str, model: &str, dimensions: u16) -> (res: Result<(), Error>)
    ensures
        verdict(res, target_problem(namespace@, model@, dimensions as nat)),
{
    if namespace.is_empty() {
        return reject("namespace must not be empty");
    }
    if model.is_empty() {
        return reject("model must not be empty");
    }
    validate_dimensions(dimensions)
}

/// All three targeting fields are required, and nothing else is asked of
/// them.
pub proof fn law_targets_are_required(namespace: Seq<char>, model: Seq<char>, dimensions: nat)
    ensures
        target_problem(namespace, model, dimensions) is None <==> namespace.len() > 0
            && model.len() > 0 && 1 <= dimensions <= 4096,
{
}

// ---------------------------------------------------------------------
// Metadata
// ---------------------------------------------------------------------

/// What is wrong with a metadata entry.
pub open spec fn entry_problem(key: Seq<char>, value: Seq<char>) -> Option<Seq<char>> {
    if key.len() == 0 {
        Some("metadata key must not be empty"@)
    } else if text::byte_len(key) > MAX_METADATA_KEY_LEN {
        Some(
            "metadata key "@ + text::debug_quoted(key) + " exceeds "@ + text::decimal(
                MAX_METADATA_KEY_LEN as nat,
            ) + " bytes"@,
        )
    } else if text::byte_len(value) > MAX_METADATA_VALUE_LEN {
        Some(
            "metadata value for key "@ + text::debug_quoted(key) + " exceeds "@ + text::decimal(
                MAX_METADATA_VALUE_LEN as nat,
            ) + " bytes"@,
        )
    } else if holds_control(key) {
        Some("metadata key "@ + text::debug_quoted(key) + " contains control characters"@)
    } else if holds_control(value) {
        Some("metadata value for key "@ + text::debug_quoted(key) + " contains control characters"@)
    } else {
        None
    }
}

/// The first problem among the entries.
pub open spec fn entries_problem(entries: Seq<(Seq<char>, Seq<char>)>) -> Option<Seq<char>>
    decreases entries.len(),
{
    if entries.len() == 0 {
        None
    } else {
        first_problem(
            entries_problem(entries.drop_last()),
            entry_problem(entries.last().0, entries.last().1),
        )
    }
}

/// Bytes of all keys and values.
pub open spec fn total_bytes(entries: Seq<(Seq<char>, Seq<char>)>) -> nat
    decreases entries.len(),
{
    if entries.len() == 0 {
        0
    } else {
        total_bytes(entries.drop_last()) + text::byte_len(entries.last().0) + text::byte_len(
            entries.last().1,
        )
    }
}

/// What is wrong with metadata: too many entries, else the first problem
/// among them, else their total size.
pub open spec fn metadata_problem(entries: Seq<(Seq<char>, Seq<char>)>) -> Option<Seq<char>> {
    if entries.len() > MAX_METADATA_KEYS {
        Some(
            "metadata has "@ + text::decimal(entries.len()) + " keys, maximum "@ + text::decimal(
                MAX_METADATA_KEYS as nat,
            ),
        )
    } else if entries_problem(entries) is Some {
        entries_problem(entries)
    } else if total_bytes(entries) > MAX_METADATA_TOTAL_BYTES {
        Some(
            "metadata total size "@ + text::decimal(total_bytes(entries)) + " exceeds "@
                + text::decimal(MAX_METADATA_TOTAL_BYTES as nat) + " bytes"@,
        )
    } else {
        None
    }
}

fn reject_key(before: &str, key: &str, after: &str) -> (res: Result<(), Error>)
    ensures
        verdict(res, Some(before@ + text::debug_quoted(key@) + after@)),
{
    let mut out = before.to_owned();
    let quoted = debug_str(key);
    push_text(&mut out, quoted.as_str());
    push_text(&mut out, after);
    Err(Error::preflight(out))
}

fn reject_key_number(before: &str, key: &str, between: &str, n: u64, after: &str) -> (res: Result<
    (),
    Error,
>)
    ensures
        verdict(
            res,
            Some(before@ + text::debug_quoted(key@) + between@ + text::decimal(n as nat) + after@),
        ),
{
    let mut out = before.to_owned();
    let quoted = debug_str(key);
    push_text(&mut out, quoted.as_str());
    push_text(&mut out, between);
    push_decimal(&mut out, n);
    push_text(&mut out, after);
    Err(Error::preflight(out))
}

/// Check one metadata entry.
fn validate_entry(key: &str, value: &str) -> (res: Result<(), Error>)
    ensures
        verdict(res, entry_problem(key@, value@)),
{
    if key.is_empty() {
        return reject("metadata key must not be empty");
    }
    if len_in_bytes(key) > MAX_METADATA_KEY_LEN {
        return reject_key_number(
            "metadata key ",
            key,
            " exceeds ",
            MAX_METADATA_KEY_LEN as u64,
            " bytes",
        );
    }
    if len_in_bytes(value) > MAX_METADATA_VALUE_LEN {
        return reject_key_number(
            "metadata value for key ",
            key,
            " exceeds ",
            MAX_METADATA_VALUE_LEN as u64,
            " bytes",
        );
    }
    if has_control_char(key) {
        return reject_key("metadata key ", key, " contains control characters");
    }
    if has_control_char(value) {
        return reject_key("metadata value for key ", key, " contains control characters");
    }
    Ok(())
}

/// A problem among the first entries is the problem of them all.
proof fn lemma_first_entries(entries: Seq<(Seq<char>, Seq<char>)>, n: int)
    requires
        0 <= n <= entries.len(),
        entries_problem(entries.take(n)) is Some,
    ensures
        entries_problem(entries) == entries_problem(entries.take(n)),
    decreases entries.len() - n,
{
    if n == entries.len() {
        assert(entries.take(n) =~= entries);
    } else {
        assert(entries.take(n + 1).drop_last() =~= entries.take(n));
        lemma_first_entries(entries, n + 1);
    }
}

/// Enforce metadata constraints matching the server: at most
/// [`MAX_METADATA_KEYS`] entries, each key <= [`MAX_METADATA_KEY_LEN`],
/// each value <= [`MAX_METADATA_VALUE_LEN`], total key and value bytes <=
/// [`MAX_METADATA_TOTAL_BYTES`], no empty key, and no control characters
/// in keys or values.
pub fn validate_metadata(md: &Metadata) -> (res: Result<(), Error>)
    ensures
        verdict(res, metadata_problem(md@)),
{
    let n = md.len();
    if n > MAX_METADATA_KEYS {
        return reject_pair(
            "metadata has ",
            n as u64,
            " keys, maximum ",
            MAX_METADATA_KEYS as u64,
        );
    }
    let mut total: usize = 0;
    let mut i: usize = 0;
    while i < n
        invariant
            i <= n == md@.len(),
            n <= MAX_METADATA_KEYS,
            entries_problem(md@.take(i as int)) is None,
            total == total_bytes(md@.take(i as int)),
            total <= i * 320,
        decreases n - i,
    {
        let key = md.key(i);
        let value = md.value(i);
        assert(md@.take(i + 1).drop_last() =~= md@.take(i as int));
        let checked = validate_entry(key, value);
        if checked.is_err() {
            proof {
                lemma_first_entries(md@, i + 1);
            }
            return checked;
        }
        total = total + len_in_bytes(key) + len_in_bytes(value);
        i = i + 1;
    }
    assert(md@.take(n as int) =~= md@);
    if total > MAX_METADATA_TOTAL_BYTES {
        return reject_numbers(
            "metadata total size ",
            total as u64,
            " exceeds ",
            MAX_METADATA_TOTAL_BYTES as u64,
            " bytes",
        );
    }
    Ok(())
}

/// Metadata passes exactly where it keeps every limit: how many entries
/// there are, how long each key and value is, how many bytes there are in
/// all, no empty key, and no control character.
pub proof fn law_metadata_passes_within_limits(entries: Seq<(Seq<char>, Seq<char>)>)
    ensures
        metadata_problem(entries) is None <==> {
            &&& entries.len() <= 16
            &&& forall|i: int|
                #![trigger entries[i]]
                0 <= i < entries.len() ==> {
                    &&& 0 < entries[i].0.len()
                    &&& vstd::utf8::encode_utf8(entries[i].0).len() <= 64
                    &&& vstd::utf8::encode_utf8(entries[i].1).len() <= 256
                    &&& all_printable(entries[i].0)
                    &&& all_printable(entries[i].1)
                }
            &&& total_bytes(entries) <= 4096
        },
{
    lemma_entries_pass(entries);
    assert forall|i: int| 0 <= i < entries.len() implies {
        &&& all_printable(#[trigger] entries[i].0) <==> !holds_control(entries[i].0)
        &&& all_printable(entries[i].1) <==> !holds_control(entries[i].1)
    } by {
        law_control_characters_by_code_point(entries[i].0);
        law_control_characters_by_code_point(entries[i].1);
    }
}

/// Is the code point of every character 32 or more, and not 127?
pub open spec fn all_printable(s: Seq<char>) -> bool {
    forall|i: int| 0 <= i < s.len() ==> 32 <= (#[trigger] s[i]) as u32 && s[i] as u32 != 127
}

/// A text holds a control character exactly where one of its code points is
/// from 0 to 31 or is 127.
pub proof fn law_control_characters_by_code_point(s: Seq<char>)
    ensures
        holds_control(s) <==> !all_printable(s),
{
    if holds_control(s) {
        let i = choose|i: int| 0 <= i < s.len() && is_control(#[trigger] s[i]);
        assert((s[i] as u32) < 32 || s[i] as u32 == 127);
    }
    if !all_printable(s) {
        let i = choose|i: int|
            0 <= i < s.len() && !(32 <= (#[trigger] s[i]) as u32 && s[i] as u32 != 127);
        assert(is_control(s[i]));
    }
}

proof fn lemma_entries_pass(entries: Seq<(Seq<char>, Seq<char>)>)
    ensures
        entries_problem(entries) is None <==> forall|i: int|
            #![trigger entries[i]]
            0 <= i < entries.len() ==> entry_problem(entries[i].0, entries[i].1) is None,
    decreases entries.len(),
{
    if entries.len() > 0 {
        let front = entries.drop_last();
        lemma_entries_pass(front);
        if entries_problem(entries) is None {
            assert forall|i: int| #![trigger entries[i]] 0 <= i < entries.len() implies
                entry_problem(entries[i].0, entries[i].1) is None by {
                if i < entries.len() - 1 {
                    assert(front[i] == entries[i]);
                }
            }
        } else if entries_problem(front) is Some {
            let i = choose|i: int|
                #![trigger front[i]]
                0 <= i < front.len() && entry_problem(front[i].0, front[i].1) is Some;
            assert(entries[i] == front[i]);
        } else {
            assert(entries[entries.len() - 1] == entries.last());
        }
    }
}

// ---------------------------------------------------------------------
// Publish items
// ---------------------------------------------------------------------

/// Index of the first number that is infinite or NaN, or the length where
/// there is none.
pub open spec fn first_not_finite(vector: Seq<Float32>) -> int
    decreases vector.len(),
{
    if vector.len() == 0 || !float::finite(vector.first()) {
        0
    } else {
        1 + first_not_finite(vector.drop_first())
    }
}

proof fn lemma_first_not_finite(vector: Seq<Float32>, i: int)
    requires
        0 <= i <= vector.len(),
        forall|j: int| 0 <= j < i ==> float::finite(#[trigger] vector[j]),
        i < vector.len() ==> !float::finite(vector[i]),
    ensures
        first_not_finite(vector) == i,
    decreases vector.len(),
{
    if i > 0 {
        assert(float::finite(vector[0]));
        let rest = vector.drop_first();
        assert forall|j: int| 0 <= j < i - 1 implies float::finite(#[trigger] rest[j]) by {
            assert(rest[j] == vector[j + 1]);
        }
        lemma_first_not_finite(rest, i - 1);
    }
}

proof fn lemma_all_finite(vector: Seq<Float32>)
    ensures
        first_not_finite(vector) >= vector.len() <==> forall|i: int|
            0 <= i < vector.len() ==> float::finite(#[trigger] vector[i]),
    decreases vector.len(),
{
    if vector.len() > 0 {
        let rest = vector.drop_first();
        lemma_all_finite(rest);
        if float::finite(vector.first()) && first_not_finite(rest) >= rest.len() {
            assert forall|i: int| 0 <= i < vector.len() implies float::finite(
                #[trigger] vector[i],
            ) by {
                if i > 0 {
                    assert(rest[i - 1] == vector[i]);
                }
            }
        }
        if forall|i: int| 0 <= i < vector.len() ==> float::finite(#[trigger] vector[i]) {
            assert(float::finite(vector[0]));
            assert forall|i: int| 0 <= i < rest.len() implies float::finite(
                #[trigger] rest[i],
            ) by {
                assert(rest[i] == vector[i + 1]);
            }
        }
    }
}

/// What is wrong with the item of a publish request.
pub open spec fn item_problem(item_text: Seq<char>, vector: Seq<Float32>) -> Option<Seq<char>> {
    if item_text.len() == 0 && vector.len() == 0 {
        Some("publish item must have at least one of text or vector"@)
    } else if text::byte_len(item_text) > MAX_TEXT_BYTES {
        Some("publish text exceeds "@ + text::decimal(MAX_TEXT_BYTES as nat) + " bytes"@)
    } else if vector.len() > MAX_VECTOR_DIM {
        Some(
            "publish vector dim "@ + text::decimal(vector.len()) + " exceeds maximum "@
                + text::decimal(MAX_VECTOR_DIM as nat),
        )
    } else if first_not_finite(vector) < vector.len() {
        Some(
            "publish vector index "@ + text::decimal(first_not_finite(vector) as nat)
                + " is NaN or Inf"@,
        )
    } else {
        None
    }
}

/// An item passes with text, a vector or both, as long as the text is at
/// most 32 KiB and the vector has at most 4096 numbers, all of them finite.
pub proof fn law_items_pass_within_limits(item_text: Seq<char>, vector: Seq<Float32>)
    ensures
        item_problem(item_text, vector) is None <==> {
            &&& item_text.len() > 0 || vector.len() > 0
            &&& vstd::utf8::encode_utf8(item_text).len() <= 32 * 1024
            &&& vector.len() <= 4096
            &&& forall|i: int|
                0 <= i < vector.len() ==> ((#[trigger] vector[i]).bits as int) % 0x8000_0000
                    < 0x7f80_0000
        },
{
    lemma_all_finite(vector);
    assert forall|i: int| 0 <= i < vector.len() implies (float::finite(#[trigger] vector[i]) <==> (
    vector[i].bits as int) % 0x8000_0000 < 0x7f80_0000) by {
        float::law_finite_by_bits(vector[i]);
    }
}

/// Enforce "at least one of text or vector", text byte cap, vector dim
/// cap, and vector numeric sanity (no NaN or infinity, which would break
/// server-side distance math). Text and vector are allowed together.
pub fn validate_publish_item(item_text: &str, vector: &[Float32]) -> (res: Result<(), Error>)
    ensures
        verdict(res, item_problem(item_text@, vector@)),
{
    let n = vector.len();
    if item_text.is_empty() && n == 0 {
        return reject("publish item must have at least one of text or vector");
    }
    if len_in_bytes(item_text) > MAX_TEXT_BYTES {
        return reject_number("publish text exceeds ", MAX_TEXT_BYTES as u64, " bytes");
    }
    if n > MAX_VECTOR_DIM as usize {
        return reject_pair(
            "publish vector dim ",
            n as u64,
            " exceeds maximum ",
            MAX_VECTOR_DIM as u64,
        );
    }
    let mut i: usize = 0;
    while i < n
        invariant
            i <= n == vector@.len(),
            n <= MAX_VECTOR_DIM,
            !(item_text@.len() == 0 && vector@.len() == 0),
            text::byte_len(item_text@) <= MAX_TEXT_BYTES,
            forall|j: int| 0 <= j < i ==> float::finite(#[trigger] vector@[j]),
        decreases n - i,
    {
        if !vector[i].is_finite() {
            proof {
                lemma_first_not_finite(vector@, i as int);
            }
            return reject_number("publish vector index ", i as u64, " is NaN or Inf");
        }
        i = i + 1;
    }
    proof {
        lemma_first_not_finite(vector@, i as int);
    }
    Ok(())
}

/// What is wrong with the length of a vector in a request.
pub open spec fn vector_length_problem(len: nat, dimensions: nat) -> Option<Seq<char>> {
    if len == 0 || len == dimensions {
        None
    } else {
        Some(
            "publish vector dim "@ + text::decimal(len) + " does not match request dimensions "@
                + text::decimal(dimensions),
        )
    }
}

/// Enforce that a publish item's vector length matches the request's
/// `dimensions` field. An item without a vector is text-only and passes.
pub fn validate_vector_matches_dimensions(vector: &[Float32], dimensions: u16) -> (res: Result<
    (),
    Error,
>)
    ensures
        verdict(res, vector_length_problem(vector@.len(), dimensions as nat)),
{
    if vector.len() == 0 {
        return Ok(());
    }
    if vector.len() != dimensions as usize {
        return reject_pair(
            "publish vector dim ",
            vector.len() as u64,
            " does not match request dimensions ",
            dimensions as u64,
        );
    }
    Ok(())
}

/// The bytes of metadata add up over its entries.
pub proof fn law_metadata_bytes_add_up(
    entries: Seq<(Seq<char>, Seq<char>)>,
    key: Seq<char>,
    value: Seq<char>,
)
    ensures
        total_bytes(Seq::empty()) == 0,
        total_bytes(entries.push((key, value))) == total_bytes(entries)
            + vstd::utf8::encode_utf8(key).len() + vstd::utf8::encode_utf8(value).len(),
{
    assert(entries.push((key, value)).drop_last() =~= entries);
}

/// A pre-flight check that finds no problem succeeds; one that does rejects
/// with an invalid request of status zero that names it.
pub proof fn law_verdicts(res: Result<(), Error>, problem: Option<Seq<char>>)
    requires
        verdict(res, problem),
    ensures
        res is Ok <==> problem is None,
        res matches Err(e) ==> {
            &&& e@ is Api
            &&& e@->Api_code is InvalidRequest
            &&& e@->Api_http_status == 0
            &&& problem == Some(e@->Api_message)
        },
{
}

/// A key is blank exactly where each of its characters is white space.
pub proof fn law_blank_keys(key: Seq<char>)
    ensures
        !is_non_blank(key) <==> forall|i: int|
            0 <= i < key.len() ==> text::is_white_space(#[trigger] key[i]),
{
    if !is_non_blank(key) {
        assert forall|i: int| 0 <= i < key.len() implies text::is_white_space(
            #[trigger] key[i],
        ) by {
            if !text::is_white_space(key[i]) {
                assert(is_non_blank(key));
            }
        }
    }
}

/// What a rejection says: which field is missing, or the number that is
/// wrong and the limit that it breaks.
pub proof fn law_rejections_name_the_fault(
    namespace: Seq<char>,
    model: Seq<char>,
    dimensions: nat,
    item_text: Seq<char>,
    vector: Seq<Float32>,
)
    ensures
        namespace.len() == 0 ==> target_problem(namespace, model, dimensions) == Some(
            "namespace must not be empty"@,
        ),
        namespace.len() > 0 && model.len() == 0 ==> target_problem(namespace, model, dimensions)
            == Some("model must not be empty"@),
        namespace.len() > 0 && model.len() > 0 && dimensions == 0 ==> target_problem(
            namespace,
            model,
            dimensions,
        ) == Some("dimensions must be greater than 0"@),
        namespace.len() > 0 && model.len() > 0 && dimensions > 4096 ==> target_problem(
            namespace,
            model,
            dimensions,
        ) == Some("dimensions "@ + text::decimal(dimensions) + " exceeds maximum "@ + text::decimal(4096)),
        item_text.len() == 0 && vector.len() == 0 ==> item_problem(item_text, vector) == Some(
            "publish item must have at least one of text or vector"@,
        ),
        vstd::utf8::encode_utf8(item_text).len() > 32768 && item_text.len() > 0 ==> item_problem(
            item_text,
            vector,
        ) == Some("publish text exceeds "@ + text::decimal(32768) + " bytes"@),
        vector.len() > 4096 && vstd::utf8::encode_utf8(item_text).len() <= 32768 ==> item_problem(
            item_text,
            vector,
        ) == Some(
            "publish vector dim "@ + text::decimal(vector.len()) + " exceeds maximum "@
                + text::decimal(4096),
        ),
        vector.len() > 0 && vector.len() != dimensions ==> vector_length_problem(
            vector.len(),
            dimensions,
        ) == Some(
            "publish vector dim "@ + text::decimal(vector.len())
                + " does not match request dimensions "@ + text::decimal(dimensions),
        ),
        vector.len() == 0 || vector.len() == dimensions ==> vector_length_problem(
            vector.len(),
            dimensions,
        ) is None,
{
}

/// Of numbers that are not finite, the first is named by its index.
pub proof fn law_the_first_bad_number_is_named(
    item_text: Seq<char>,
    vector: Seq<Float32>,
    i: int,
)
    requires
        vstd::utf8::encode_utf8(item_text).len() <= 32768,
        vector.len() <= 4096,
        0 <= i < vector.len(),
        (vector[i].bits as int) % 0x8000_0000 >= 0x7f80_0000,
        forall|j: int|
            0 <= j < i ==> ((#[trigger] vector[j]).bits as int) % 0x8000_0000 < 0x7f80_0000,
    ensures
        item_problem(item_text, vector) == Some(
            "publish vector index "@ + text::decimal(i as nat) + " is NaN or Inf"@,
        ),
{
    assert forall|j: int| 0 <= j < i implies float::finite(#[trigger] vector[j]) by {
        float::law_finite_by_bits(vector[j]);
    }
    float::law_finite_by_bits(vector[i]);
    lemma_first_not_finite(vector, i);
}

/// What a rejection of metadata says, entry by entry: the key, and what is
/// wrong with it or its value.
pub proof fn law_entry_rejections_name_the_key(key: Seq<char>, value: Seq<char>)
    ensures
        key.len() == 0 ==> entry_problem(key, value) == Some("metadata key must not be empty"@),
        key.len() > 0 && vstd::utf8::encode_utf8(key).len() > 64 ==> entry_problem(key, value)
            == Some("metadata key "@ + text::debug_quoted(key) + " exceeds "@ + text::decimal(64) + " bytes"@),
        key.len() > 0 && vstd::utf8::encode_utf8(key).len() <= 64 && vstd::utf8::encode_utf8(
            value,
        ).len() > 256 ==> entry_problem(key, value) == Some(
            "metadata value for key "@ + text::debug_quoted(key) + " exceeds "@ + text::decimal(256)
                + " bytes"@,
        ),
        key.len() > 0 && vstd::utf8::encode_utf8(key).len() <= 64 && vstd::utf8::encode_utf8(
            value,
        ).len() <= 256 ==> {
            &&& !all_printable(key) ==> entry_problem(key, value) == Some(
                "metadata key "@ + text::debug_quoted(key) + " contains control characters"@,
            )
            &&& all_printable(key) && !all_printable(value) ==> entry_problem(key, value) == Some(
                "metadata value for key "@ + text::debug_quoted(key)
                    + " contains control characters"@,
            )
            &&& all_printable(key) && all_printable(value) ==> entry_problem(key, value) is None
        },
{
    law_control_characters_by_code_point(key);
    law_control_characters_by_code_point(value);
}

/// Of metadata that does not pass, the number of entries is reported first,
/// then the first entry that is wrong, then the total.
pub proof fn law_metadata_problems_come_in_order(
    entries: Seq<(Seq<char>, Seq<char>)>,
    i: int,
)
    ensures
        entries.len() > 16 ==> metadata_problem(entries) == Some(
            "metadata has "@ + text::decimal(entries.len()) + " keys, maximum "@ + text::decimal(16),
        ),
        entries.len() <= 16 && 0 <= i < entries.len() && entry_problem(
            entries[i].0,
            entries[i].1,
        ) is Some && (forall|j: int|
            0 <= j < i ==> entry_problem((#[trigger] entries[j]).0, entries[j].1) is None)
            ==> metadata_problem(entries) == entry_problem(entries[i].0, entries[i].1),
        entries.len() <= 16 && total_bytes(entries) > 4096 && (forall|j: int|
            0 <= j < entries.len() ==> entry_problem((#[trigger] entries[j]).0, entries[j].1)
                is None) ==> metadata_problem(entries) == Some(
            "metadata total size "@ + text::decimal(total_bytes(entries)) + " exceeds "@
                + text::decimal(4096) + " bytes"@,
        ),
{
    lemma_entries_pass(entries);
    if 0 <= i < entries.len() {
        lemma_first_entry_problem(entries, i);
    }
}

proof fn lemma_first_entry_problem(entries: Seq<(Seq<char>, Seq<char>)>, i: int)
    requires
        0 <= i < entries.len(),
    ensures
        entry_problem(entries[i].0, entries[i].1) is Some && (forall|j: int|
            0 <= j < i ==> entry_problem((#[trigger] entries[j]).0, entries[j].1) is None)
            ==> entries_problem(entries) == entry_problem(entries[i].0, entries[i].1),
    decreases entries.len(),
{
    let rest = entries.drop_last();
    if i < rest.len() {
        lemma_first_entry_problem(rest, i);
        assert(forall|j: int| 0 <= j < i ==> #[trigger] rest[j] == entries[j]);
    } else {
        lemma_entries_pass(rest);
        assert(forall|j: int| 0 <= j < rest.len() ==> #[trigger] rest[j] == entries[j]);
    }
}

} // verus!
