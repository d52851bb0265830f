//! What holds of every HTTPS record: what was written into one is read out of
//! it again.
use crate::https_record::{
    be16, dns_labels, dns_name, ech_param, ech_public_name, hex_bytes, https_binding, rdata_bytes,
    u16_at, with_params, BindingModel, EchError, RecordFault,
};
use crate::lines::joined;
use crate::number::{
    all_digits, decimal, digit_value, digits_value, lemma_decimal_round_trip, parsed,
};
use crate::space::{
    blank, is_white_space, law_trim_leaves_nothing_of_white_space, law_trim_takes_white_space_off,
    lemma_trimmed_start, lemma_trimmed_unchanged, lemma_word_len, solid, trimmed, trimmed_end,
    trimmed_start, word_len, words,
};
use crate::text::after_prefix;
use vstd::prelude::*;
use vstd::utf8::{decode_utf8, valid_utf8};

verus! {

// ---------------------------------------------------------------------------
// Writing a record
// ---------------------------------------------------------------------------

/// A number below 65536 in two bytes, the high one first.
pub open spec fn two_bytes(n: int) -> Seq<u8> {
    seq![(n / 256) as u8, (n % 256) as u8]
}

/// A domain name as its labels, each after its length, with an empty one at
/// the end.
pub open spec fn written_labels(labels: Seq<Seq<u8>>) -> Seq<u8>
    decreases labels.len(),
{
    if labels.len() == 0 {
        seq![0u8]
    } else {
        seq![labels[0].len() as u8] + labels[0] + written_labels(labels.skip(1))
    }
}

/// A parameter as its key, the length of its value, and its value.
pub open spec fn written_param(key: u16, value: Seq<u8>) -> Seq<u8> {
    two_bytes(key as int) + two_bytes(value.len() as int) + value
}

/// Parameters one after another.
pub open spec fn written_params(params: Seq<(u16, Seq<u8>)>) -> Seq<u8>
    decreases params.len(),
{
    if params.len() == 0 {
        Seq::empty()
    } else {
        written_param(params[0].0, params[0].1) + written_params(params.skip(1))
    }
}

/// A record as its priority, the name of its target, and its parameters.
pub open spec fn written_record(
    priority: u16,
    labels: Seq<Seq<u8>>,
    params: Seq<(u16, Seq<u8>)>,
) -> Seq<u8> {
    two_bytes(priority as int) + written_labels(labels) + written_params(params)
}

/// Labels with a dot between each two.
pub open spec fn dotted(labels: Seq<Seq<u8>>) -> Seq<char>
    decreases labels.len(),
{
    if labels.len() == 0 {
        Seq::empty()
    } else if labels.len() == 1 {
        decode_utf8(labels[0])
    } else {
        decode_utf8(labels[0]) + seq!['.'] + dotted(labels.skip(1))
    }
}

/// Whether labels can stand in a name: none is empty, has more than 63 bytes
/// or is not text.
pub open spec fn are_labels(labels: Seq<Seq<u8>>) -> bool {
    forall|i: int|
        0 <= i < labels.len() ==> 0 < (#[trigger] labels[i]).len() < 64 && valid_utf8(labels[i])
}

/// Whether parameters can stand in a record: no value is longer than its
/// length can say, and one with key 5 starts with the length of what follows.
pub open spec fn are_params(params: Seq<(u16, Seq<u8>)>) -> bool {
    forall|i: int|
        0 <= i < params.len() ==> (#[trigger] params[i]).1.len() < 65536 && (params[i].0 == 5
            ==> is_ech_value(params[i].1))
}

/// Whether a value starts with the length of what follows, in two bytes.
pub open spec fn is_ech_value(value: Seq<u8>) -> bool {
    value.len() >= 2 && value.len() == 2 + value[0] * 256 + value[1]
}

// ---------------------------------------------------------------------------
// Reading it
// ---------------------------------------------------------------------------

proof fn lemma_two_bytes(n: int)
    requires
        0 <= n < 65536,
    ensures
        two_bytes(n).len() == 2,
        be16(two_bytes(n)[0], two_bytes(n)[1]) == n,
{
}

proof fn lemma_labels_read(front: Seq<u8>, labels: Seq<Seq<u8>>, back: Seq<u8>)
    requires
        are_labels(labels),
    ensures
        dns_labels(front + written_labels(labels) + back, front.len() as int) == Ok::<
            (Seq<Seq<char>>, int),
            RecordFault,
        >(
            (
                labels.map_values(|l: Seq<u8>| decode_utf8(l)),
                (front.len() + written_labels(labels).len()) as int,
            ),
        ),
    decreases labels.len(),
{
    let data = front + written_labels(labels) + back;
    let at = front.len() as int;
    let texts = labels.map_values(|l: Seq<u8>| decode_utf8(l));
    if labels.len() == 0 {
        assert(data[at] == 0);
        assert(texts =~= Seq::<Seq<char>>::empty());
    } else {
        let label = labels[0];
        let rest = labels.skip(1);
        assert(0 < label.len() < 64 && valid_utf8(label));
        assert forall|i: int| 0 <= i < rest.len() implies 0 < (#[trigger] rest[i]).len() < 64
            && valid_utf8(rest[i]) by {
            assert(rest[i] == labels[i + 1]);
        }
        let longer = front + seq![label.len() as u8] + label;
        lemma_labels_read(longer, rest, back);
        assert(longer + written_labels(rest) + back =~= data);
        assert(data[at] == label.len());
        assert(data.subrange(at + 1, at + 1 + data[at]) =~= label);
        assert(texts =~= seq![decode_utf8(label)] + rest.map_values(
            |l: Seq<u8>| decode_utf8(l),
        ));
    }
}

proof fn lemma_dotted(labels: Seq<Seq<u8>>)
    ensures
        joined(labels.map_values(|l: Seq<u8>| decode_utf8(l)), "."@) == dotted(labels),
    decreases labels.len(),
{
    let texts = labels.map_values(|l: Seq<u8>| decode_utf8(l));
    reveal_strlit(".");
    assert("."@ =~= seq!['.']);
    if labels.len() > 1 {
        lemma_dotted(labels.skip(1));
        assert(texts.skip(1) =~= labels.skip(1).map_values(|l: Seq<u8>| decode_utf8(l)));
    }
}

proof fn lemma_dotted_not_empty(labels: Seq<Seq<u8>>)
    requires
        are_labels(labels),
        labels.len() > 0,
    ensures
        dotted(labels).len() > 0,
{
    assert(0 < labels[0].len());
    assert(decode_utf8(labels[0]).len() > 0);
}

/// The binding once parameters were read.
spec fn after_params(params: Seq<(u16, Seq<u8>)>, binding: BindingModel) -> BindingModel
    decreases params.len(),
{
    if params.len() == 0 {
        binding
    } else if params[0].0 != 5 {
        after_params(params.skip(1), binding)
    } else {
        after_params(
            params.skip(1),
            BindingModel {
                ech_config_list: Some(params[0].1),
                ech_public_name: match ech_public_name(params[0].1) {
                    Ok(name) => Some(name),
                    Err(_) => None,
                },
                ..binding
            },
        )
    }
}

proof fn lemma_params_read(
    front: Seq<u8>,
    params: Seq<(u16, Seq<u8>)>,
    back: Seq<u8>,
    binding: BindingModel,
)
    requires
        are_params(params),
    ensures
        with_params(
            front + written_params(params) + back,
            front.len() as int,
            binding,
        ) == with_params(
            front + written_params(params) + back,
            (front.len() + written_params(params).len()) as int,
            after_params(params, binding),
        ),
    decreases params.len(),
{
    let bytes = front + written_params(params) + back;
    let at = front.len() as int;
    if params.len() > 0 {
        let (key, value) = params[0];
        let rest = params.skip(1);
        assert(params[0].1.len() < 65536);
        assert forall|i: int| 0 <= i < rest.len() implies (#[trigger] rest[i]).1.len() < 65536 && (
        rest[i].0 == 5 ==> is_ech_value(rest[i].1)) by {
            assert(rest[i] == params[i + 1]);
        }
        lemma_two_bytes(key as int);
        lemma_two_bytes(value.len() as int);
        let longer = front + written_param(key, value);
        assert(longer + written_params(rest) + back =~= bytes);
        assert(bytes[at] == two_bytes(key as int)[0]);
        assert(bytes[at + 1] == two_bytes(key as int)[1]);
        assert(bytes[at + 2] == two_bytes(value.len() as int)[0]);
        assert(bytes[at + 3] == two_bytes(value.len() as int)[1]);
        assert(bytes.subrange(at + 4, at + 4 + value.len()) =~= value);
        let next = if key != 5 {
            binding
        } else {
            BindingModel {
                ech_config_list: Some(value),
                ech_public_name: match ech_public_name(value) {
                    Ok(name) => Some(name),
                    Err(_) => None,
                },
                ..binding
            }
        };
        lemma_params_read(longer, rest, back, next);
    }
}

proof fn lemma_after_params(params: Seq<(u16, Seq<u8>)>, binding: BindingModel)
    ensures
        after_params(params, binding).priority == binding.priority,
        after_params(params, binding).target_name == binding.target_name,
        (forall|i: int| 0 <= i < params.len() ==> (#[trigger] params[i]).0 != 5) ==> after_params(
            params,
            binding,
        ) == binding,
        forall|i: int| #[trigger]
            is_last_ech(params, i) ==> after_params(params, binding).ech_config_list == Some(
                params[i].1,
            ) && after_params(params, binding).ech_public_name == match ech_public_name(
                params[i].1,
            ) {
                Ok(name) => Some(name),
                Err(_) => None,
            },
    decreases params.len(),
{
    if params.len() > 0 {
        let rest = params.skip(1);
        let next = if params[0].0 != 5 {
            binding
        } else {
            BindingModel {
                ech_config_list: Some(params[0].1),
                ech_public_name: match ech_public_name(params[0].1) {
                    Ok(name) => Some(name),
                    Err(_) => None,
                },
                ..binding
            }
        };
        lemma_after_params(rest, next);
        assert forall|i: int| 0 <= i < rest.len() implies rest[i] == #[trigger] params[i + 1] by {}
        if forall|i: int| 0 <= i < params.len() ==> (#[trigger] params[i]).0 != 5 {
            assert forall|i: int| 0 <= i < rest.len() implies (#[trigger] rest[i]).0 != 5 by {
                assert(rest[i] == params[i + 1]);
            }
        }
        assert forall|i: int| #[trigger] is_last_ech(params, i) implies after_params(
            params,
            binding,
        ).ech_config_list == Some(params[i].1) && after_params(params, binding).ech_public_name
            == match ech_public_name(params[i].1) {
            Ok(name) => Some(name),
            Err(_) => None,
        } by {
            if i > 0 {
                assert forall|j: int| i - 1 < j < rest.len() implies (#[trigger] rest[j]).0
                    != 5 by {
                    assert(rest[j] == params[j + 1]);
                }
                assert(rest[i - 1] == params[i]);
                assert(is_last_ech(rest, i - 1));
            } else {
                assert forall|j: int| 0 <= j < rest.len() implies (#[trigger] rest[j]).0 != 5 by {
                    assert(rest[j] == params[j + 1]);
                }
                assert(after_params(rest, next) == next);
            }
        }
    }
}

/// Whether parameter `i` is the last with key 5.
pub open spec fn is_last_ech(params: Seq<(u16, Seq<u8>)>, i: int) -> bool {
    &&& 0 <= i < params.len()
    &&& params[i].0 == 5
    &&& forall|j: int| i < j < params.len() ==> (#[trigger] params[j]).0 != 5
}

/// The binding of a record before its parameters were read.
spec fn bare_binding(priority: u16, labels: Seq<Seq<u8>>) -> BindingModel {
    BindingModel {
        priority,
        target_name: if labels.len() == 0 {
            None
        } else {
            Some(dotted(labels))
        },
        ech_config_list: None,
        ech_public_name: None,
    }
}

proof fn lemma_record_read(
    raw: Seq<char>,
    priority: u16,
    labels: Seq<Seq<u8>>,
    params: Seq<(u16, Seq<u8>)>,
    back: Seq<u8>,
)
    requires
        rdata_bytes(raw) == Ok::<Seq<u8>, RecordFault>(
            written_record(priority, labels, params) + back,
        ),
        are_labels(labels),
        are_params(params),
    ensures
        https_binding(raw) == with_params(
            written_record(priority, labels, params) + back,
            written_record(priority, labels, params).len() as int,
            after_params(params, bare_binding(priority, labels)),
        ),
{
    let bytes = written_record(priority, labels, params) + back;
    let name = written_labels(labels);
    lemma_two_bytes(priority as int);
    assert(name.len() > 0);
    let none = Seq::<u8>::empty();
    lemma_labels_read(none, labels, written_params(params) + back);
    assert(bytes.skip(2) =~= none + name + (written_params(params) + back));
    lemma_dotted(labels);
    if labels.len() > 0 {
        lemma_dotted_not_empty(labels);
    } else {
        assert(dotted(labels).len() == 0);
    }
    let front = two_bytes(priority as int) + name;
    lemma_params_read(front, params, back, bare_binding(priority, labels));
    assert(front + written_params(params) + back =~= bytes);
    assert(bytes[0] == two_bytes(priority as int)[0]);
    assert(bytes[1] == two_bytes(priority as int)[1]);
}

// ---------------------------------------------------------------------------
// Laws
// ---------------------------------------------------------------------------

/// A record is read as it was written: its priority, the labels of its target
/// with dots between them, and the ECH configuration list in the last of its
/// parameters with key 5. Parameters with other keys change nothing, wherever
/// they stand.
pub proof fn law_record_is_read_back(
    raw: Seq<char>,
    priority: u16,
    labels: Seq<Seq<u8>>,
    params: Seq<(u16, Seq<u8>)>,
)
    requires
        rdata_bytes(raw) == Ok::<Seq<u8>, RecordFault>(written_record(priority, labels, params)),
        are_labels(labels),
        are_params(params),
    ensures
        https_binding(raw) matches Ok(binding) && {
            &&& binding.priority == priority
            &&& binding.target_name == if labels.len() == 0 {
                None
            } else {
                Some(dotted(labels))
            }
            &&& forall|i: int|
                0 <= i < params.len() && (#[trigger] params[i]).0 == 5 && (forall|j: int|
                    i < j < params.len() ==> (#[trigger] params[j]).0 != 5)
                    ==> binding.ech_config_list == Some(params[i].1) && binding.ech_public_name
                    == match ech_public_name(params[i].1) {
                    Ok(name) => Some(name),
                    Err(_) => None,
                }
            &&& (forall|i: int| 0 <= i < params.len() ==> (#[trigger] params[i]).0 != 5)
                ==> binding.ech_config_list is None && binding.ech_public_name is None
        },
{
    let none = Seq::<u8>::empty();
    let bytes = written_record(priority, labels, params);
    assert(bytes + none =~= bytes);
    lemma_record_read(raw, priority, labels, params, none);
    lemma_after_params(params, bare_binding(priority, labels));
    let binding = after_params(params, bare_binding(priority, labels));
    assert(https_binding(raw) == Ok::<BindingModel, RecordFault>(binding));
    assert forall|i: int|
        0 <= i < params.len() && (#[trigger] params[i]).0 == 5 && (forall|j: int|
            i < j < params.len() ==> (#[trigger] params[j]).0
                != 5) implies binding.ech_config_list == Some(params[i].1)
        && binding.ech_public_name == match ech_public_name(params[i].1) {
        Ok(name) => Some(name),
        Err(_) => None,
    } by {
        assert(is_last_ech(params, i));
    }
}

/// A record that ends within a parameter is refused, whatever stands before:
/// within the key and the length for its header, and else for its value.
pub proof fn law_cut_parameter_is_refused(
    raw: Seq<char>,
    priority: u16,
    labels: Seq<Seq<u8>>,
    params: Seq<(u16, Seq<u8>)>,
    key: u16,
    value: Seq<u8>,
    cut: int,
)
    requires
        value.len() < 65536,
        0 < cut < 4 + value.len(),
        rdata_bytes(raw) == Ok::<Seq<u8>, RecordFault>(
            written_record(priority, labels, params) + written_param(key, value).take(cut),
        ),
        are_labels(labels),
        are_params(params),
    ensures
        https_binding(raw) == Err::<BindingModel, RecordFault>(
            if cut < 4 {
                RecordFault::TruncatedParameterHeader
            } else {
                RecordFault::TruncatedParameterValue
            },
        ),
{
    let back = written_param(key, value).take(cut);
    lemma_record_read(raw, priority, labels, params, back);
    lemma_two_bytes(value.len() as int);
    let at = written_record(priority, labels, params).len() as int;
    let bytes = written_record(priority, labels, params) + back;
    if cut >= 4 {
        assert(bytes[at + 2] == two_bytes(value.len() as int)[0]);
        assert(bytes[at + 3] == two_bytes(value.len() as int)[1]);
    }
}

/// A record is refused where a parameter with key 5 does not start with the
/// length of what follows, whatever stands around it.
pub proof fn law_wrong_ech_length_is_refused(
    raw: Seq<char>,
    priority: u16,
    labels: Seq<Seq<u8>>,
    params: Seq<(u16, Seq<u8>)>,
    value: Seq<u8>,
    back: Seq<u8>,
)
    requires
        value.len() < 65536,
        rdata_bytes(raw) == Ok::<Seq<u8>, RecordFault>(
            written_record(priority, labels, params) + (written_param(5, value) + back),
        ),
        are_labels(labels),
        are_params(params),
    ensures
        value.len() < 2 ==> https_binding(raw) == Err::<BindingModel, RecordFault>(
            RecordFault::EchTooShort,
        ),
        value.len() >= 2 && value.len() != 2 + value[0] * 256 + value[1] ==> https_binding(raw)
            == Err::<BindingModel, RecordFault>(
            RecordFault::EchLengthMismatch {
                declared: value[0] * 256 + value[1],
                actual: value.len() - 2,
            },
        ),
{
    let tail = written_param(5, value) + back;
    lemma_record_read(raw, priority, labels, params, tail);
    lemma_two_bytes(5);
    lemma_two_bytes(value.len() as int);
    let at = written_record(priority, labels, params).len() as int;
    let bytes = written_record(priority, labels, params) + tail;
    assert(bytes[at] == two_bytes(5)[0]);
    assert(bytes[at + 1] == two_bytes(5)[1]);
    assert(bytes[at + 2] == two_bytes(value.len() as int)[0]);
    assert(bytes[at + 3] == two_bytes(value.len() as int)[1]);
    assert(bytes.subrange(at + 4, at + 4 + value.len()) =~= value);
}

/// Where the name of the target goes on after some labels, a record is refused
/// if the next byte is 64 or more, if the data ends there or within the label
/// that the byte announces, and if that label is not text.
pub proof fn law_bad_name_is_refused(
    raw: Seq<char>,
    priority: u16,
    labels: Seq<Seq<u8>>,
    back: Seq<u8>,
)
    requires
        rdata_bytes(raw) == Ok::<Seq<u8>, RecordFault>(
            two_bytes(priority as int) + written_labels(labels).drop_last() + back,
        ),
        are_labels(labels),
        labels.len() > 0 || back.len() > 0,
    ensures
        back.len() == 0 ==> https_binding(raw) == Err::<BindingModel, RecordFault>(
            RecordFault::TruncatedName,
        ),
        back.len() > 0 && 0 < back[0] < 64 && back.len() > back[0] && !valid_utf8(
            back.subrange(1, 1 + back[0]),
        ) ==> https_binding(raw) == Err::<BindingModel, RecordFault>(RecordFault::InvalidLabel),
        back.len() > 0 && back[0] >= 64 ==> https_binding(raw) == Err::<BindingModel, RecordFault>(
            RecordFault::CompressedName,
        ),
        back.len() > 0 && 0 < back[0] < 64 && back.len() <= back[0] ==> https_binding(raw) == Err::<
            BindingModel,
            RecordFault,
        >(RecordFault::TruncatedLabel),
{
    let name = written_labels(labels).drop_last();
    let none = Seq::<u8>::empty();
    lemma_front_labels_read(none, labels, back);
    let data = none + name + back;
    assert((two_bytes(priority as int) + name + back).skip(2) =~= data);
    let at = name.len() as int;
    if back.len() > 0 {
        assert(data[at] == back[0]);
        if back.len() > back[0] {
            assert(data.subrange(at + 1, at + 1 + data[at]) =~= back.subrange(1, 1 + back[0]));
        }
    }
}

/// A record that cannot be read as bytes is refused for that, and one of fewer
/// than three bytes as too short.
pub proof fn law_short_record_is_refused(raw: Seq<char>)
    ensures
        rdata_bytes(raw) matches Err(e) ==> https_binding(raw) == Err::<BindingModel, RecordFault>(
            e,
        ),
        rdata_bytes(raw) matches Ok(bytes) ==> (bytes.len() < 3 ==> https_binding(raw) == Err::<
            BindingModel,
            RecordFault,
        >(RecordFault::TooShort)),
{
}

/// A name is read as its labels with dots between them, and takes the bytes
/// that it was written in, whatever follows.
pub proof fn law_name_is_read_back(labels: Seq<Seq<u8>>, back: Seq<u8>)
    requires
        are_labels(labels),
    ensures
        dns_name(written_labels(labels) + back) == Ok::<(Seq<char>, int), RecordFault>(
            (dotted(labels), written_labels(labels).len() as int),
        ),
{
    let none = Seq::<u8>::empty();
    lemma_labels_read(none, labels, back);
    lemma_dotted(labels);
    assert(none + written_labels(labels) + back =~= written_labels(labels) + back);
}

/// The value of an ECH parameter is taken as it is where it starts with the
/// length of what follows, and refused otherwise.
pub proof fn law_ech_values(value: Seq<u8>)
    ensures
        value.len() < 2 ==> ech_param(value) == Err::<Seq<u8>, RecordFault>(
            RecordFault::EchTooShort,
        ),
        value.len() >= 2 && value.len() == 2 + value[0] * 256 + value[1] ==> ech_param(value)
            == Ok::<Seq<u8>, RecordFault>(value),
        value.len() >= 2 && value.len() != 2 + value[0] * 256 + value[1] ==> ech_param(value)
            == Err::<Seq<u8>, RecordFault>(
            RecordFault::EchLengthMismatch {
                declared: value[0] * 256 + value[1],
                actual: value.len() - 2,
            },
        ),
{
}

/// A number of two bytes is read back wherever both of them are there.
pub proof fn law_numbers_are_read_back(front: Seq<u8>, n: u16, back: Seq<u8>, at: int)
    ensures
        u16_at(front + two_bytes(n as int) + back, front.len() as int) == Some(n as int),
        at < 0 || at + 2 > front.len() ==> u16_at(front, at) is None,
{
    lemma_two_bytes(n as int);
    let all = front + two_bytes(n as int) + back;
    let k = front.len() as int;
    assert(all[k] == two_bytes(n as int)[0] && all[k + 1] == two_bytes(n as int)[1]);
}

proof fn lemma_front_labels_read(front: Seq<u8>, labels: Seq<Seq<u8>>, back: Seq<u8>)
    requires
        are_labels(labels),
    ensures
        written_labels(labels).len() > 0,
        labels.len() > 0 ==> written_labels(labels).len() > 2,
        dns_labels(
            front + written_labels(labels).drop_last() + back,
            (front.len() + written_labels(labels).len() - 1) as int,
        ) matches Err(e) ==> dns_labels(
            front + written_labels(labels).drop_last() + back,
            front.len() as int,
        ) == Err::<(Seq<Seq<char>>, int), RecordFault>(e),
    decreases labels.len(),
{
    let written = written_labels(labels);
    let data = front + written.drop_last() + back;
    let at = front.len() as int;
    if labels.len() > 0 {
        let label = labels[0];
        let rest = labels.skip(1);
        assert(0 < label.len() < 64 && valid_utf8(label));
        assert forall|i: int| 0 <= i < rest.len() implies 0 < (#[trigger] rest[i]).len() < 64
            && valid_utf8(rest[i]) by {
            assert(rest[i] == labels[i + 1]);
        }
        let longer = front + seq![label.len() as u8] + label;
        lemma_front_labels_read(longer, rest, back);
        assert(longer + written_labels(rest).drop_last() + back =~= data);
        assert(data[at] == label.len());
        assert(data.subrange(at + 1, at + 1 + data[at]) =~= label);
    }
}

// ---------------------------------------------------------------------------
// ECH configurations
// ---------------------------------------------------------------------------

/// What an ECH configuration holds: an identifier, the mechanism and the
/// public key, the cipher suites, the longest name, the public name, and what
/// follows it.
pub open spec fn written_contents(
    id: u8,
    kem: u16,
    key: Seq<u8>,
    suites: Seq<u8>,
    longest: u8,
    name: Seq<u8>,
    rest: Seq<u8>,
) -> Seq<u8> {
    seq![id] + two_bytes(kem as int) + two_bytes(key.len() as int) + key + two_bytes(
        suites.len() as int,
    ) + suites + seq![longest, name.len() as u8] + name + rest
}

/// A list of ECH configurations: its length, then the version, the length and
/// the contents of the first, then the others.
pub open spec fn written_ech_list(version: u16, contents: Seq<u8>, others: Seq<u8>) -> Seq<u8> {
    two_bytes((4 + contents.len() + others.len()) as int) + two_bytes(version as int) + two_bytes(
        contents.len() as int,
    ) + contents + others
}

proof fn lemma_ech_list(version: u16, contents: Seq<u8>, others: Seq<u8>)
    requires
        4 + contents.len() + others.len() < 65536,
    ensures
        ({
            let list = written_ech_list(version, contents, others);
            let n = (contents.len() + others.len()) as int;
            &&& list.len() == 6 + n
            &&& be16(list[0], list[1]) == 4 + n
            &&& be16(list[2], list[3]) == version
            &&& be16(list[4], list[5]) == contents.len()
            &&& forall|i: int| 0 <= i < n ==> #[trigger] list[6 + i] == (contents + others)[i]
        }),
{
    let list = written_ech_list(version, contents, others);
    let n = (contents.len() + others.len()) as int;
    lemma_two_bytes(4 + n);
    lemma_two_bytes(version as int);
    lemma_two_bytes(contents.len() as int);
    assert(list[0] == two_bytes(4 + n)[0] && list[1] == two_bytes(4 + n)[1]);
    assert(list[2] == two_bytes(version as int)[0] && list[3] == two_bytes(version as int)[1]);
    assert(list[4] == two_bytes(contents.len() as int)[0]);
    assert(list[5] == two_bytes(contents.len() as int)[1]);
    assert forall|i: int| 0 <= i < n implies #[trigger] list[6 + i] == (contents + others)[i] by {}
}

proof fn lemma_public_name(
    id: u8,
    kem: u16,
    key: Seq<u8>,
    suites: Seq<u8>,
    longest: u8,
    name: Seq<u8>,
    rest: Seq<u8>,
    others: Seq<u8>,
)
    requires
        4 + written_contents(id, kem, key, suites, longest, name, rest).len() + others.len()
            < 65536,
        name.len() < 256,
    ensures
        ech_public_name(
            written_ech_list(
                0xfe0d,
                written_contents(id, kem, key, suites, longest, name, rest),
                others,
            ),
        ) == if !valid_utf8(name) {
            Err::<Seq<char>, EchError>(EchError::InvalidName)
        } else if trimmed(decode_utf8(name)).len() == 0 {
            Err(EchError::EmptyName)
        } else {
            Ok(trimmed(decode_utf8(name)))
        },
{
    let contents = written_contents(id, kem, key, suites, longest, name, rest);
    let list = written_ech_list(0xfe0d, contents, others);
    let n = (contents.len() + others.len()) as int;
    lemma_ech_list(0xfe0d, contents, others);
    let config = list.subrange(2, 2 + (4 + n));
    let all = contents + others;
    lemma_two_bytes(key.len() as int);
    lemma_two_bytes(suites.len() as int);
    let k = key.len() as int;
    let s = suites.len() as int;
    assert(config[0] == list[2] && config[1] == list[3] && config[2] == list[4] && config[3]
        == list[5]);
    assert forall|i: int| 0 <= i < n implies #[trigger] config[4 + i] == all[i] by {
        assert(list[6 + i] == all[i]);
    }
    assert(config[7] == all[3] && all[3] == two_bytes(k)[0]);
    assert(config[8] == all[4] && all[4] == two_bytes(k)[1]);
    assert(config[4 + (5 + k)] == all[5 + k] && all[5 + k] == two_bytes(s)[0]);
    assert(config[4 + (6 + k)] == all[6 + k] && all[6 + k] == two_bytes(s)[1]);
    let at = 12 + k + s;
    assert(config[4 + (8 + k + s)] == all[8 + k + s]);
    assert(all[8 + k + s] == name.len() as u8);
    assert forall|i: int| 0 <= i < name.len() implies config[at + 1 + i] == #[trigger] name[i] by {
        assert(config[4 + (9 + k + s + i)] == all[9 + k + s + i]);
    }
    assert(config.subrange(at + 1, at + 1 + config[at]) =~= name);
}

/// The public name of a list is the one that was written into its first
/// configuration, without white space around it, whatever else that holds and
/// whatever configurations follow. One that is blank or not text is refused.
pub proof fn law_public_name_is_read_back(
    id: u8,
    kem: u16,
    key: Seq<u8>,
    suites: Seq<u8>,
    longest: u8,
    name: Seq<u8>,
    rest: Seq<u8>,
    others: Seq<u8>,
    left: Seq<char>,
    text: Seq<char>,
    right: Seq<char>,
)
    requires
        4 + written_contents(id, kem, key, suites, longest, name, rest).len() + others.len()
            < 65536,
        name.len() < 256,
        blank(left),
        blank(right),
        solid(text),
    ensures
        ({
            let list = written_ech_list(
                0xfe0d,
                written_contents(id, kem, key, suites, longest, name, rest),
                others,
            );
            &&& valid_utf8(name) && decode_utf8(name) == left + text + right ==> ech_public_name(
                list,
            ) == Ok::<Seq<char>, EchError>(text)
            &&& valid_utf8(name) && blank(decode_utf8(name)) ==> ech_public_name(list) == Err::<
                Seq<char>,
                EchError,
            >(EchError::EmptyName)
            &&& !valid_utf8(name) ==> ech_public_name(list) == Err::<Seq<char>, EchError>(
                EchError::InvalidName,
            )
        }),
{
    lemma_public_name(id, kem, key, suites, longest, name, rest, others);
    law_trim_takes_white_space_off(left, text, right);
    if blank(decode_utf8(name)) {
        law_trim_leaves_nothing_of_white_space(decode_utf8(name));
    }
}

/// No public name is read from a list that was cut off, wherever that was.
pub proof fn law_cut_list_has_no_name(version: u16, contents: Seq<u8>, others: Seq<u8>, cut: int)
    requires
        4 + contents.len() + others.len() < 65536,
        0 <= cut < written_ech_list(version, contents, others).len(),
    ensures
        ech_public_name(written_ech_list(version, contents, others).take(cut)) is Err,
{
    let list = written_ech_list(version, contents, others);
    lemma_ech_list(version, contents, others);
    let front = list.take(cut);
    if cut >= 2 {
        assert(front[0] == list[0] && front[1] == list[1]);
    }
}

/// No public name is read from a configuration whose contents are shorter than
/// it declares.
pub proof fn law_short_contents_have_no_name(declared: u16, contents: Seq<u8>)
    requires
        4 + contents.len() < 65536,
        contents.len() < declared,
    ensures
        ech_public_name(
            two_bytes((4 + contents.len()) as int) + two_bytes(0xfe0d) + two_bytes(declared as int)
                + contents,
        ) == Err::<Seq<char>, EchError>(EchError::TruncatedContents),
{
    let n = (4 + contents.len()) as int;
    let list = two_bytes(n) + two_bytes(0xfe0d) + two_bytes(declared as int) + contents;
    lemma_two_bytes(n);
    lemma_two_bytes(0xfe0d);
    lemma_two_bytes(declared as int);
    assert(list[0] == two_bytes(n)[0] && list[1] == two_bytes(n)[1]);
    let config = list.subrange(2, 2 + n);
    assert(config[0] == two_bytes(0xfe0d)[0] && config[1] == two_bytes(0xfe0d)[1]);
    assert(config[2] == two_bytes(declared as int)[0] && config[3] == two_bytes(
        declared as int,
    )[1]);
}

/// No public name is read from a configuration of another version.
pub proof fn law_other_version_is_refused(version: u16, contents: Seq<u8>, others: Seq<u8>)
    requires
        4 + contents.len() + others.len() < 65536,
        version != 0xfe0d,
    ensures
        ech_public_name(written_ech_list(version, contents, others)) == Err::<Seq<char>, EchError>(
            EchError::UnsupportedVersion(version),
        ),
{
    let list = written_ech_list(version, contents, others);
    lemma_ech_list(version, contents, others);
    let config = list.subrange(2, (6 + contents.len() + others.len()) as int);
    assert(config[0] == list[2] && config[1] == list[3] && config[2] == list[4] && config[3]
        == list[5]);
}

// ---------------------------------------------------------------------------
// Bytes as text
// ---------------------------------------------------------------------------

/// A hexadecimal digit, with letters in upper case or not.
pub open spec fn hex_digit(d: int, upper: bool) -> char {
    if d < 10 {
        (48 + d) as char
    } else if upper {
        (55 + d) as char
    } else {
        (87 + d) as char
    }
}

/// A byte as two hexadecimal digits.
pub open spec fn hex_pair(b: u8, upper: bool) -> Seq<char> {
    seq![hex_digit(b as int / 16, upper), hex_digit(b as int % 16, upper)]
}

/// Bytes as pairs of hexadecimal digits, each after a space.
pub open spec fn hex_pairs(bytes: Seq<u8>, upper: bool) -> Seq<char>
    decreases bytes.len(),
{
    if bytes.len() == 0 {
        Seq::empty()
    } else {
        seq![' '] + hex_pair(bytes[0], upper) + hex_pairs(bytes.skip(1), upper)
    }
}

/// Bytes as text: a sign, a number that is to be the number of bytes, and the
/// bytes in hexadecimal.
pub open spec fn written_text(declared: nat, bytes: Seq<u8>, upper: bool) -> Seq<char> {
    seq!['\\', '#', ' '] + decimal(declared) + hex_pairs(bytes, upper)
}

proof fn lemma_hex_pair(b: u8, upper: bool)
    ensures
        parsed(hex_pair(b, upper), 16, 255) == Some(b as nat),
        !is_white_space(hex_pair(b, upper)[0]),
        !is_white_space(hex_pair(b, upper)[1]),
{
    let s = hex_pair(b, upper);
    assert(digit_value(s[0]) == b as nat / 16);
    assert(digit_value(s[1]) == b as nat % 16);
    assert(s.drop_last() =~= seq![s[0]]);
    assert(s.drop_last().drop_last() =~= Seq::<char>::empty());
    assert(digits_value(s.drop_last().drop_last(), 16) == 0);
    assert(digits_value(s.drop_last(), 16) == b as nat / 16);
    assert(digits_value(s, 16) == b);
    assert(s[0] != '+');
}

/// The words of a text that starts with a word after a space.
proof fn lemma_first_word(word: Seq<char>, rest: Seq<char>)
    requires
        word.len() > 0,
        forall|i: int| 0 <= i < word.len() ==> !is_white_space(#[trigger] word[i]),
        rest.len() == 0 || is_white_space(rest[0]),
    ensures
        words(word + rest) == seq![word] + words(rest),
        words(seq![' '] + word + rest) == seq![word] + words(rest),
{
    let s = word + rest;
    lemma_word_ends(word, rest);
    assert(s[0] == word[0]);
    assert(trimmed_start(s) == s);
    assert(s.take(word.len() as int) =~= word);
    assert(s.skip(word.len() as int) =~= rest);
    let t = seq![' '] + word + rest;
    assert(t.skip(1) =~= s);
    assert(is_white_space(t[0]));
    assert(trimmed_start(t) == s);
}

proof fn lemma_word_ends(word: Seq<char>, rest: Seq<char>)
    requires
        forall|i: int| 0 <= i < word.len() ==> !is_white_space(#[trigger] word[i]),
        rest.len() == 0 || is_white_space(rest[0]),
    ensures
        word_len(word + rest) == word.len(),
    decreases word.len(),
{
    let s = word + rest;
    if word.len() > 0 {
        assert(s[0] == word[0]);
        assert(s.skip(1) =~= word.skip(1) + rest);
        assert forall|i: int| 0 <= i < word.skip(1).len() implies !is_white_space(
            #[trigger] word.skip(1)[i],
        ) by {
            assert(word.skip(1)[i] == word[i + 1]);
        }
        lemma_word_ends(word.skip(1), rest);
    } else {
        assert(s =~= rest);
    }
}

proof fn lemma_hex_pairs(bytes: Seq<u8>, upper: bool)
    ensures
        words(hex_pairs(bytes, upper)) == bytes.map_values(|b: u8| hex_pair(b, upper)),
        bytes.len() > 0 ==> hex_pairs(bytes, upper).len() > 0 && hex_pairs(bytes, upper)[0] == ' '
            && !is_white_space(hex_pairs(bytes, upper).last()),
    decreases bytes.len(),
{
    let all = bytes.map_values(|b: u8| hex_pair(b, upper));
    if bytes.len() == 0 {
        assert(all =~= Seq::<Seq<char>>::empty());
    } else {
        let first = hex_pair(bytes[0], upper);
        let rest = hex_pairs(bytes.skip(1), upper);
        lemma_hex_pair(bytes[0], upper);
        lemma_hex_pairs(bytes.skip(1), upper);
        lemma_first_word(first, rest);
        assert(all =~= seq![first] + bytes.skip(1).map_values(|b: u8| hex_pair(b, upper)));
        if bytes.skip(1).len() == 0 {
            assert(hex_pairs(bytes, upper).last() == first[1]);
        } else {
            assert(hex_pairs(bytes, upper).last() == rest.last());
        }
    }
}

proof fn lemma_hex_words(bytes: Seq<u8>, upper: bool)
    ensures
        hex_bytes(bytes.map_values(|b: u8| hex_pair(b, upper))) == Ok::<Seq<u8>, Seq<char>>(bytes),
    decreases bytes.len(),
{
    let all = bytes.map_values(|b: u8| hex_pair(b, upper));
    if bytes.len() > 0 {
        let front = bytes.drop_last();
        lemma_hex_words(front, upper);
        lemma_hex_pair(bytes.last(), upper);
        assert(all.drop_last() =~= front.map_values(|b: u8| hex_pair(b, upper)));
        assert(front.push(bytes.last()) =~= bytes);
    } else {
        assert(bytes =~= Seq::<u8>::empty());
    }
}

proof fn lemma_decimal_word(n: nat)
    ensures
        decimal(n).len() > 0,
        forall|i: int| 0 <= i < decimal(n).len() ==> !is_white_space(#[trigger] decimal(n)[i]),
{
    lemma_decimal_round_trip(n, n);
    assert(all_digits(decimal(n), 10));
    assert forall|i: int| 0 <= i < decimal(n).len() implies !is_white_space(
        #[trigger] decimal(n)[i],
    ) by {
        assert(digit_value(decimal(n)[i]) < 10);
    }
}

/// Bytes written as text are read back, with digits in upper or in lower case,
/// where the number in front of them is theirs; with another number they are
/// refused.
pub proof fn law_bytes_are_read_back(declared: nat, bytes: Seq<u8>, upper: bool)
    requires
        declared <= usize::MAX,
    ensures
        rdata_bytes(written_text(declared, bytes, upper)) == if declared == bytes.len() {
            Ok::<Seq<u8>, RecordFault>(bytes)
        } else {
            Err(
                RecordFault::LengthMismatch {
                    expected: declared as int,
                    actual: bytes.len() as int,
                },
            )
        },
{
    let raw = written_text(declared, bytes, upper);
    let number = decimal(declared);
    let pairs = hex_pairs(bytes, upper);
    lemma_decimal_word(declared);
    lemma_hex_pairs(bytes, upper);
    lemma_hex_words(bytes, upper);
    lemma_decimal_round_trip(declared, usize::MAX as nat);
    if bytes.len() == 0 {
        assert(raw.last() == number[number.len() - 1]);
    } else {
        assert(raw.last() == pairs.last());
    }
    lemma_trimmed_unchanged(raw);
    reveal_strlit("\\#");
    assert("\\#"@ =~= raw.subrange(0, 2));
    let encoded = seq![' '] + number + pairs;
    assert(raw.skip(2) =~= encoded);
    assert(after_prefix(raw, "\\#"@) == Some(encoded));
    let inner = number + pairs;
    assert(encoded.skip(1) =~= inner);
    assert(inner[0] == number[0]);
    if bytes.len() == 0 {
        assert(inner.last() == number[number.len() - 1]);
    } else {
        assert(inner.last() == pairs.last());
    }
    lemma_trimmed_unchanged(inner);
    assert(is_white_space(encoded[0]));
    assert(trimmed_start(encoded) == trimmed_start(inner));
    assert(trimmed(encoded) == inner);
    lemma_first_word(number, pairs);
    let ws = words(inner);
    assert(ws[0] == number);
    assert(ws.skip(1) =~= words(pairs));
}

/// Text that does not start with a backslash and a hash sign is refused as it
/// stands, white space around it aside; nothing behind the sign, and anything
/// but a number as the first word behind it, are refused as well, and so is
/// the first word after that which is no byte in hexadecimal.
pub proof fn law_bad_notation_is_refused(left: Seq<char>, rest: Seq<char>, k: int)
    requires
        blank(left),
        rest.len() > 0 ==> solid(rest),
    ensures
        rest.len() > 0 && !(rest.len() >= 2 && rest[0] == '\\' && rest[1] == '#') ==> rdata_bytes(
            left + rest,
        ) == Err::<Seq<u8>, RecordFault>(RecordFault::UnexpectedFormat { found: rest }),
        rest.len() >= 2 && rest[0] == '\\' && rest[1] == '#' ==> {
            let ws = words(rest.skip(2));
            &&& ws.len() == 0 ==> rdata_bytes(left + rest) == Err::<Seq<u8>, RecordFault>(
                RecordFault::MissingLength,
            )
            &&& ws.len() > 0 && parsed(ws[0], 10, usize::MAX as nat) is None ==> rdata_bytes(
                left + rest,
            ) == Err::<Seq<u8>, RecordFault>(RecordFault::InvalidLength { found: ws[0] })
            &&& 0 < k < ws.len() && parsed(ws[0], 10, usize::MAX as nat) is Some && parsed(
                ws[k],
                16,
                255,
            ) is None && (forall|j: int|
                0 < j < k ==> parsed(#[trigger] ws[j], 16, 255) is Some) ==> rdata_bytes(
                left + rest,
            ) == Err::<Seq<u8>, RecordFault>(RecordFault::InvalidByte { found: ws[k] })
        },
{
    let none = Seq::<char>::empty();
    reveal_strlit("\\#");
    if rest.len() > 0 {
        law_trim_takes_white_space_off(left, rest, none);
        assert(left + rest + none =~= left + rest);
        if "\\#"@.is_prefix_of(rest) {
            assert(rest.subrange(0, 2)[0] == rest[0] && rest.subrange(0, 2)[1] == rest[1]);
        }
    }
    if rest.len() >= 2 && rest[0] == '\\' && rest[1] == '#' {
        assert("\\#"@ =~= rest.subrange(0, 2));
        let encoded = rest.skip(2);
        assert(after_prefix(rest, "\\#"@) == Some(encoded));
        lemma_words_of_trimmed(encoded);
        let ws = words(encoded);
        if 0 < k < ws.len() && parsed(ws[k], 16, 255) is None && (forall|j: int|
            0 < j < k ==> parsed(#[trigger] ws[j], 16, 255) is Some) {
            let pairs = ws.skip(1);
            assert(pairs[k - 1] == ws[k]);
            assert forall|j: int| 0 <= j < k - 1 implies parsed(
                #[trigger] pairs[j],
                16,
                255,
            ) is Some by {
                assert(pairs[j] == ws[j + 1]);
            }
            lemma_first_bad_word(pairs, k - 1);
        }
    }
}

proof fn lemma_first_bad_word(ws: Seq<Seq<char>>, k: int)
    requires
        0 <= k < ws.len(),
        parsed(ws[k], 16, 255) is None,
        forall|j: int| 0 <= j < k ==> parsed(#[trigger] ws[j], 16, 255) is Some,
    ensures
        hex_bytes(ws) == Err::<Seq<u8>, Seq<char>>(ws[k]),
    decreases ws.len(),
{
    let front = ws.drop_last();
    if k < front.len() {
        lemma_first_bad_word(front, k);
    } else {
        lemma_good_words(front);
    }
}

proof fn lemma_good_words(ws: Seq<Seq<char>>)
    requires
        forall|j: int| 0 <= j < ws.len() ==> parsed(#[trigger] ws[j], 16, 255) is Some,
    ensures
        hex_bytes(ws) is Ok,
    decreases ws.len(),
{
    if ws.len() > 0 {
        lemma_good_words(ws.drop_last());
        assert(parsed(ws[ws.len() - 1], 16, 255) is Some);
    }
}

/// Trimming a text changes nothing about its words.
proof fn lemma_words_of_trimmed(s: Seq<char>)
    ensures
        words(trimmed(s)) == words(s),
{
    let t = trimmed_start(s);
    lemma_trimmed_start(s);
    assert(trimmed_start(t) == t);
    assert(words(t) == words(s));
    lemma_words_without_end(t);
}

proof fn lemma_words_without_end(s: Seq<char>)
    ensures
        words(trimmed_end(s)) == words(s),
    decreases s.len(),
{
    if s.len() > 0 && is_white_space(s.last()) {
        lemma_words_without_end(s.drop_last());
        lemma_words_without_last(s);
    }
}

/// White space at the end of a text adds no word.
proof fn lemma_words_without_last(s: Seq<char>)
    requires
        s.len() > 0,
        is_white_space(s.last()),
    ensures
        words(s.drop_last()) == words(s),
    decreases s.len(),
{
    let front = s.drop_last();
    if is_white_space(s[0]) {
        if front.len() == 0 {
            assert(s.skip(1) =~= front);
        } else {
            assert(front[0] == s[0]);
            assert(front.skip(1) =~= s.skip(1).drop_last());
            lemma_words_without_last(s.skip(1));
        }
    } else {
        lemma_word_len(s);
        lemma_word_len(front);
        let n = word_len(s) as int;
        let m = word_len(front) as int;
        assert(front[0] == s[0]);
        if n == s.len() {
            assert(s[n - 1] == s.last());
        }
        if m < n {
            assert(front[m] == s[m]);
        }
        if n < m {
            assert(front[n] == s[n]);
        }
        assert(front.take(n) =~= s.take(n));
        assert(front.skip(n) =~= s.skip(n).drop_last());
        if n > 0 {
            lemma_words_without_last(s.skip(n));
        }
    }
}

/// The words behind the sign are the number of bytes and then each of them in
/// hexadecimal, with any white space between them.
pub proof fn law_words_are_read_as_bytes(left: Seq<char>, rest: Seq<char>, bytes: Seq<u8>)
    requires
        blank(left),
        solid(rest),
        rest.len() >= 2,
        rest[0] == '\\',
        rest[1] == '#',
        words(rest.skip(2)).len() == bytes.len() + 1,
        parsed(words(rest.skip(2))[0], 10, usize::MAX as nat) == Some(bytes.len()),
        forall|i: int|
            0 <= i < bytes.len() ==> parsed(#[trigger] words(rest.skip(2))[i + 1], 16, 255) == Some(
                bytes[i] as nat,
            ),
    ensures
        rdata_bytes(left + rest) == Ok::<Seq<u8>, RecordFault>(bytes),
{
    let none = Seq::<char>::empty();
    reveal_strlit("\\#");
    law_trim_takes_white_space_off(left, rest, none);
    assert(left + rest + none =~= left + rest);
    assert("\\#"@ =~= rest.subrange(0, 2));
    let encoded = rest.skip(2);
    assert(after_prefix(rest, "\\#"@) == Some(encoded));
    lemma_words_of_trimmed(encoded);
    let pairs = words(encoded).skip(1);
    assert forall|i: int| 0 <= i < bytes.len() implies parsed(#[trigger] pairs[i], 16, 255) == Some(
        bytes[i] as nat,
    ) by {
        assert(pairs[i] == words(encoded)[i + 1]);
    }
    lemma_words_as_bytes(pairs, bytes);
}

proof fn lemma_words_as_bytes(ws: Seq<Seq<char>>, bytes: Seq<u8>)
    requires
        ws.len() == bytes.len(),
        forall|i: int|
            0 <= i < bytes.len() ==> parsed(#[trigger] ws[i], 16, 255) == Some(bytes[i] as nat),
    ensures
        hex_bytes(ws) == Ok::<Seq<u8>, Seq<char>>(bytes),
    decreases ws.len(),
{
    if ws.len() > 0 {
        lemma_words_as_bytes(ws.drop_last(), bytes.drop_last());
        assert(parsed(ws[ws.len() - 1], 16, 255) == Some(bytes.last() as nat));
        assert(bytes.drop_last().push(bytes.last()) =~= bytes);
    } else {
        assert(bytes =~= Seq::<u8>::empty());
    }
}

} // verus!
