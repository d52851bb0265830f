//! What holds of the hosts file across applying and removing the managed
//! block.
use crate::config::{managed_domains, ConfigModel};
use crate::hosts::{
    ended, has_crlf, host_lines, managed_block, newline_of, rendered, stripped, unmanaged,
    END_MARKER, START_MARKER,
};
use crate::lines::{
    ends_with_return, joined, lemma_joined_no_crlf, lemma_joined_push, lemma_lines_concat,
    lemma_lines_ended,
    lemma_lines_first, lemma_lines_joined, lemma_lines_no_inner_return, lemma_lines_unbroken,
    line_end, lines, no_inner_return, unbroken, without_last_empty,
};
use crate::space::{lemma_trimmed_unchanged, trimmed};
use crate::text::{occurs, occurs_at};
use vstd::prelude::*;

verus! {

/// Whether a line opens or closes a managed block.
pub open spec fn is_marker(line: Seq<char>) -> bool {
    trimmed(line) == START_MARKER@ || trimmed(line) == END_MARKER@
}

proof fn lemma_markers()
    ensures
        trimmed(START_MARKER@) == START_MARKER@,
        trimmed(END_MARKER@) == END_MARKER@,
        START_MARKER@ != END_MARKER@,
        !START_MARKER@.contains('\n'),
        !END_MARKER@.contains('\n'),
        !START_MARKER@.contains('\r'),
        !END_MARKER@.contains('\r'),
        !ends_with_return(START_MARKER@),
        !ends_with_return(END_MARKER@),
{
    reveal_strlit("# >>> linuxdo-accelerator >>>");
    reveal_strlit("# <<< linuxdo-accelerator <<<");
    lemma_trimmed_unchanged(START_MARKER@);
    lemma_trimmed_unchanged(END_MARKER@);
    assert(START_MARKER@[2] != END_MARKER@[2]);
}

proof fn lemma_crlf_literal()
    ensures
        "\r\n"@ == line_end(true),
{
    reveal_strlit("\r\n");
    assert("\r\n"@ =~= line_end(true));
}

/// The lines outside the managed blocks are lines of the text, none of them a
/// marker.
proof fn lemma_unmanaged_lines(ls: Seq<Seq<char>>, skipping: bool)
    ensures
        unbroken(ls) ==> unbroken(unmanaged(ls, skipping)),
        no_inner_return(ls) ==> no_inner_return(unmanaged(ls, skipping)),
        forall|i: int|
            0 <= i < unmanaged(ls, skipping).len() ==> !is_marker(
                #[trigger] unmanaged(ls, skipping)[i],
            ),
        ls.len() == 0 ==> unmanaged(ls, skipping).len() == 0,
    decreases ls.len(),
{
    if ls.len() > 0 {
        let tail = ls.skip(1);
        lemma_unmanaged_lines(tail, true);
        lemma_unmanaged_lines(tail, false);
        assert forall|i: int| 0 <= i < tail.len() implies #[trigger] tail[i] == ls[i + 1] by {}
        if unbroken(ls) {
            assert(unbroken(tail));
        }
        if no_inner_return(ls) {
            assert(no_inner_return(tail));
        }
        let out = unmanaged(ls, skipping);
        if !is_marker(ls[0]) && !skipping {
            let rest = unmanaged(tail, false);
            assert forall|i: int| 0 <= i < out.len() implies !is_marker(#[trigger] out[i]) by {
                if i > 0 {
                    assert(out[i] == rest[i - 1]);
                }
            }
            if unbroken(ls) {
                assert forall|i: int| 0 <= i < out.len() implies !(#[trigger] out[i]).contains(
                    '\n',
                ) by {
                    if i > 0 {
                        assert(out[i] == rest[i - 1]);
                    }
                }
            }
            if no_inner_return(ls) {
                assert forall|i: int| 0 <= i < out.len() - 1 implies !ends_with_return(
                    #[trigger] out[i],
                ) by {
                    if i > 0 {
                        assert(out[i] == rest[i - 1]);
                    } else {
                        assert(!ends_with_return(ls[0]));
                    }
                }
            }
        }
    }
}

/// Lines that are no markers are all outside the managed blocks.
pub proof fn lemma_unmarked_lines_stay(ls: Seq<Seq<char>>, after: Seq<Seq<char>>)
    requires
        forall|i: int| 0 <= i < ls.len() ==> !is_marker(#[trigger] ls[i]),
    ensures
        unmanaged(ls + after, false) == ls + unmanaged(after, false),
    decreases ls.len(),
{
    if ls.len() == 0 {
        assert(ls + after =~= after);
        assert(ls + unmanaged(after, false) =~= unmanaged(after, false));
    } else {
        let tail = ls.skip(1);
        assert forall|i: int| 0 <= i < tail.len() implies !is_marker(#[trigger] tail[i]) by {
            assert(tail[i] == ls[i + 1]);
        }
        lemma_unmarked_lines_stay(tail, after);
        assert((ls + after).skip(1) =~= tail + after);
        assert(!is_marker(ls[0]));
        assert(unmanaged(ls + after, false) =~= ls + unmanaged(after, false));
    }
}

/// Inside a block everything up to the closing marker is skipped.
proof fn lemma_block_is_skipped(inner: Seq<Seq<char>>)
    requires
        forall|i: int| 0 <= i < inner.len() ==> trimmed(#[trigger] inner[i]) != END_MARKER@,
    ensures
        unmanaged(inner.push(END_MARKER@), true) == Seq::<Seq<char>>::empty(),
    decreases inner.len(),
{
    lemma_markers();
    let all = inner.push(END_MARKER@);
    if inner.len() == 0 {
        assert(all[0] == END_MARKER@);
        assert(all.skip(1).len() == 0);
        assert(unmanaged(all.skip(1), false) =~= Seq::<Seq<char>>::empty());
    } else {
        let tail = inner.skip(1);
        assert forall|i: int| 0 <= i < tail.len() implies trimmed(#[trigger] tail[i])
            != END_MARKER@ by {
            assert(tail[i] == inner[i + 1]);
        }
        lemma_block_is_skipped(tail);
        assert(all.skip(1) =~= tail.push(END_MARKER@));
        assert(all[0] == inner[0]);
    }
}

/// The lines of a text whose managed blocks were taken out.
proof fn lemma_stripped_lines(original: Seq<char>)
    ensures
        lines(stripped(original)) == without_last_empty(unmanaged(lines(original), false)),
        unbroken(unmanaged(lines(original), false)),
        has_crlf(original) || no_inner_return(unmanaged(lines(original), false)),
{
    lemma_crlf_literal();
    lemma_lines_unbroken(original);
    if !has_crlf(original) {
        lemma_lines_no_inner_return(original);
    }
    lemma_unmanaged_lines(lines(original), false);
    lemma_lines_joined(unmanaged(lines(original), false), has_crlf(original));
}

/// No marker is left in a text whose managed blocks were taken out.
pub proof fn law_strip_leaves_no_marker(original: Seq<char>, i: int)
    requires
        0 <= i < lines(stripped(original)).len(),
    ensures
        !is_marker(lines(stripped(original))[i]),
{
    lemma_stripped_lines(original);
    lemma_unmanaged_lines(lines(original), false);
    assert(lines(stripped(original))[i] == unmanaged(lines(original), false)[i]);
}

/// A text without markers keeps all its lines when its managed blocks are
/// taken out.
pub proof fn law_strip_keeps_unmanaged_lines(original: Seq<char>)
    requires
        forall|i: int| 0 <= i < lines(original).len() ==> !is_marker(#[trigger] lines(original)[i]),
    ensures
        stripped(original) == joined(lines(original), newline_of(original)),
{
    let none = Seq::<Seq<char>>::empty();
    lemma_unmarked_lines_stay(lines(original), none);
    assert(lines(original) + none =~= lines(original));
    assert(lines(original) + unmanaged(none, false) =~= lines(original));
}

/// The last character of joined lines, where it is a line feed, ends a line
/// as the others are ended.
proof fn lemma_joined_end(ls: Seq<Seq<char>>, crlf: bool)
    requires
        unbroken(ls),
        joined(ls, line_end(crlf)).len() > 0,
        joined(ls, line_end(crlf)).last() == '\n',
    ensures
        line_end(crlf).is_suffix_of(joined(ls, line_end(crlf))),
        ls.len() > 1,
        ls.last().len() == 0,
        joined(ls, line_end(crlf)) == joined(ls.drop_last(), line_end(crlf)) + line_end(crlf),
    decreases ls.len(),
{
    let nl = line_end(crlf);
    let s = joined(ls, nl);
    if ls.len() == 1 {
        assert(ls[0].contains(ls[0].last()));
    } else {
        let tail = ls.skip(1);
        let t = joined(tail, nl);
        assert(s == ls[0] + nl + t);
        assert forall|i: int| 0 <= i < tail.len() implies !(#[trigger] tail[i]).contains('\n') by {
            assert(tail[i] == ls[i + 1]);
        }
        assert(ls.drop_last().skip(1) =~= tail.drop_last());
        if t.len() > 0 {
            assert(t.last() == s.last());
            lemma_joined_end(tail, crlf);
            assert(tail.last() == ls.last());
            assert(s =~= joined(ls.drop_last(), nl) + nl);
        } else {
            if tail.len() > 1 {
                assert(t == tail[0] + nl + joined(tail.skip(1), nl));
            }
            assert(tail.len() == 1);
            assert(tail[0] == t);
            assert(ls.last() == tail[0]);
            assert(ls.drop_last() =~= seq![ls[0]]);
            assert(s =~= joined(ls.drop_last(), nl) + nl);
        }
        assert(nl =~= s.subrange(s.len() - nl.len(), s.len() as int));
    }
}

/// The lines of the stripped text with its last line ended.
proof fn lemma_ended_lines(original: Seq<char>)
    requires
        has_crlf(original) || !ends_with_return(stripped(original)),
    ensures
        ({
            let head = ended(stripped(original), newline_of(original));
            &&& head.len() == 0 || head.last() == '\n'
            &&& lines(head) == lines(stripped(original))
        }),
{
    let c = stripped(original);
    let crlf = has_crlf(original);
    lemma_stripped_lines(original);
    if c.len() > 0 {
        if c.last() == '\n' {
            lemma_joined_end(unmanaged(lines(original), false), crlf);
        } else {
            if line_end(crlf).is_suffix_of(c) {
                assert(c.subrange(c.len() - line_end(crlf).len(), c.len() as int).last()
                    == c.last());
            }
            lemma_lines_ended(c, crlf);
        }
    }
}

proof fn lemma_host_lines_ended(ip: Seq<char>, hosts: Seq<Seq<char>>, crlf: bool)
    ensures
        host_lines(ip, hosts, line_end(crlf)).len() == 0 || host_lines(
            ip,
            hosts,
            line_end(crlf),
        ).last() == '\n',
    decreases hosts.len(),
{
    if hosts.len() > 0 {
        lemma_host_lines_ended(ip, hosts.drop_last(), crlf);
    }
}

/// The lines inside the managed block of a configuration.
pub open spec fn block_lines(config: ConfigModel, newline: Seq<char>) -> Seq<Seq<char>> {
    lines(host_lines(config.hosts_ip, managed_domains(config), newline))
}

/// Whether no line of the managed block closes it before its end.
pub open spec fn block_holds(config: ConfigModel, newline: Seq<char>) -> bool {
    forall|i: int|
        0 <= i < block_lines(config, newline).len() ==> trimmed(
            #[trigger] block_lines(config, newline)[i],
        ) != END_MARKER@
}

/// After applying a configuration the hosts file consists of the lines that
/// were there outside managed blocks, and of the managed block.
pub proof fn law_apply_appends_block(original: Seq<char>, config: ConfigModel)
    requires
        has_crlf(original) || !ends_with_return(stripped(original)),
    ensures
        lines(rendered(original, config)) == lines(stripped(original)) + (seq![START_MARKER@]
            + block_lines(config, newline_of(original)).push(END_MARKER@)),
{
    let crlf = has_crlf(original);
    let nl = newline_of(original);
    let head = ended(stripped(original), nl);
    let inner = host_lines(config.hosts_ip, managed_domains(config), nl);
    let last = END_MARKER@ + nl;
    let block = managed_block(config.hosts_ip, managed_domains(config), nl);
    lemma_markers();
    lemma_ended_lines(original);
    lemma_lines_concat(head, block);
    assert(block =~= START_MARKER@ + nl + (inner + last));
    lemma_lines_first(START_MARKER@, crlf, inner + last);
    lemma_host_lines_ended(config.hosts_ip, managed_domains(config), crlf);
    lemma_lines_concat(inner, last);
    lemma_lines_first(END_MARKER@, crlf, Seq::empty());
    assert(END_MARKER@ + nl + Seq::<char>::empty() =~= last);
    assert(lines(Seq::<char>::empty()) =~= Seq::<Seq<char>>::empty());
    assert(lines(last) =~= seq![END_MARKER@]);
    assert(lines(inner) + lines(last) =~= lines(inner).push(END_MARKER@));
}

/// Applying a configuration leaves every line outside the managed blocks as
/// it was.
pub proof fn law_apply_keeps_other_lines(original: Seq<char>, config: ConfigModel)
    requires
        has_crlf(original) || !ends_with_return(stripped(original)),
        block_holds(config, newline_of(original)),
    ensures
        unmanaged(lines(rendered(original, config)), false) == lines(stripped(original)),
{
    let kept = lines(stripped(original));
    let inner = block_lines(config, newline_of(original));
    let block = seq![START_MARKER@] + inner.push(END_MARKER@);
    law_apply_appends_block(original, config);
    assert forall|i: int| 0 <= i < kept.len() implies !is_marker(#[trigger] kept[i]) by {
        law_strip_leaves_no_marker(original, i);
    }
    lemma_unmarked_lines_stay(kept, block);
    lemma_markers();
    lemma_block_is_skipped(inner);
    assert(block.skip(1) =~= inner.push(END_MARKER@));
    assert(block[0] == START_MARKER@);
    assert(kept + Seq::<Seq<char>>::empty() =~= kept);
}

/// Removing the managed block after it was applied gives what removing it
/// before would have given. A file that ends with blank lines loses one of
/// them each time and is left out.
pub proof fn law_remove_undoes_apply(original: Seq<char>, config: ConfigModel)
    requires
        has_crlf(original) || !ends_with_return(stripped(original)),
        block_holds(config, newline_of(original)),
        has_crlf(rendered(original, config)) == has_crlf(original),
        !newline_of(original).is_suffix_of(stripped(original)),
    ensures
        stripped(rendered(original, config)) == stripped(original),
{
    let crlf = has_crlf(original);
    let c = stripped(original);
    let ls = unmanaged(lines(original), false);
    law_apply_keeps_other_lines(original, config);
    lemma_stripped_lines(original);
    if ls.len() > 0 && ls.last().len() == 0 {
        lemma_last_empty(ls, crlf);
    }
}

/// Lines of which the last is empty join to a text that is empty or ends with
/// a line end.
proof fn lemma_last_empty(ls: Seq<Seq<char>>, crlf: bool)
    requires
        ls.len() > 0,
        ls.last().len() == 0,
    ensures
        joined(ls, line_end(crlf)) == if ls.len() == 1 {
            Seq::<char>::empty()
        } else {
            joined(ls.drop_last(), line_end(crlf)) + line_end(crlf)
        },
        ls.len() > 1 ==> line_end(crlf).is_suffix_of(joined(ls, line_end(crlf))),
        ls.len() == 1 ==> joined(ls.drop_last(), line_end(crlf)) == joined(ls, line_end(crlf)),
{
    let nl = line_end(crlf);
    if ls.len() == 1 {
        assert(ls[0] =~= Seq::<char>::empty());
        assert(ls.drop_last() =~= Seq::<Seq<char>>::empty());
    } else {
        let front = ls.drop_last();
        lemma_joined_push(front, ls.last(), nl);
        assert(front.push(ls.last()) =~= ls);
        let s = joined(ls, nl);
        assert(s =~= joined(front, nl) + nl);
        assert(nl =~= s.subrange(s.len() - nl.len(), s.len() as int));
    }
}

/// Applying a second configuration replaces the first: the file is the one
/// that the second alone would have made. A file that ends with two blank
/// lines, or is nothing else, loses one of them and is left out.
pub proof fn law_apply_replaces(original: Seq<char>, first: ConfigModel, second: ConfigModel)
    requires
        has_crlf(original) || !ends_with_return(stripped(original)),
        block_holds(first, newline_of(original)),
        has_crlf(rendered(original, first)) == has_crlf(original),
        !(newline_of(original) + newline_of(original)).is_suffix_of(stripped(original)),
        stripped(original) != newline_of(original),
    ensures
        rendered(rendered(original, first), second) == rendered(original, second),
{
    let crlf = has_crlf(original);
    let nl = line_end(crlf);
    let c = stripped(original);
    let ls = unmanaged(lines(original), false);
    let again = stripped(rendered(original, first));
    law_apply_keeps_other_lines(original, first);
    lemma_stripped_lines(original);
    assert(again == joined(without_last_empty(ls), nl));
    if ls.len() > 0 && ls.last().len() == 0 {
        lemma_last_empty(ls, crlf);
        if ls.len() > 1 {
            assert(c == again + nl);
            if again.len() == 0 {
                assert(c =~= nl);
            }
            if nl.is_suffix_of(again) {
                let twice = nl + nl;
                assert(again.subrange(again.len() - nl.len(), again.len() as int) == nl);
                assert(twice =~= c.subrange(c.len() - twice.len(), c.len() as int));
            }
            assert(ended(again, nl) =~= ended(c, nl));
        }
    }
}

/// Applying a configuration twice is applying it once.
pub proof fn law_apply_idempotent(original: Seq<char>, config: ConfigModel)
    requires
        has_crlf(original) || !ends_with_return(stripped(original)),
        block_holds(config, newline_of(original)),
        has_crlf(rendered(original, config)) == has_crlf(original),
        !(newline_of(original) + newline_of(original)).is_suffix_of(stripped(original)),
        stripped(original) != newline_of(original),
    ensures
        rendered(rendered(original, config), config) == rendered(original, config),
{
    law_apply_replaces(original, config, config);
}

/// Whether a text holds no carriage return.
pub open spec fn returnless(s: Seq<char>) -> bool {
    !s.contains('\r')
}

proof fn lemma_returnless_concat(a: Seq<char>, b: Seq<char>)
    requires
        returnless(a),
        returnless(b),
    ensures
        returnless(a + b),
{
    if (a + b).contains('\r') {
        let i = choose|i: int| 0 <= i < (a + b).len() && (a + b)[i] == '\r';
        if i < a.len() {
            assert(a.contains(a[i]));
        } else {
            assert(b.contains(b[i - a.len()]));
        }
    }
}

proof fn lemma_host_lines_returnless(ip: Seq<char>, hosts: Seq<Seq<char>>)
    requires
        returnless(ip),
        forall|i: int| 0 <= i < hosts.len() ==> returnless(#[trigger] hosts[i]),
    ensures
        returnless(host_lines(ip, hosts, line_end(false))),
    decreases hosts.len(),
{
    if hosts.len() > 0 {
        let front = hosts.drop_last();
        assert forall|i: int| 0 <= i < front.len() implies returnless(#[trigger] front[i]) by {
            assert(front[i] == hosts[i]);
        }
        lemma_host_lines_returnless(ip, front);
        let f = host_lines(ip, front, line_end(false));
        let h = hosts.last();
        assert(returnless(hosts[hosts.len() - 1]));
        assert(returnless(" "@)) by {
            reveal_strlit(" ");
        }
        assert(returnless(line_end(false)));
        lemma_returnless_concat(ip, " "@);
        lemma_returnless_concat(ip + " "@, h);
        lemma_returnless_concat(f, ip + " "@ + h);
        lemma_returnless_concat(f + (ip + " "@ + h), line_end(false));
    }
}

/// Applying a configuration keeps the line ends of the file, where neither
/// the address nor a domain holds a carriage return.
pub proof fn law_apply_keeps_line_ends(original: Seq<char>, config: ConfigModel)
    requires
        has_crlf(original) || !ends_with_return(stripped(original)),
        returnless(config.hosts_ip),
        forall|i: int|
            0 <= i < managed_domains(config).len() ==> returnless(
                #[trigger] managed_domains(config)[i],
            ),
    ensures
        has_crlf(rendered(original, config)) == has_crlf(original),
{
    lemma_crlf_literal();
    lemma_markers();
    let crlf = has_crlf(original);
    let nl = newline_of(original);
    let c = stripped(original);
    let head = ended(c, nl);
    let block = managed_block(config.hosts_ip, managed_domains(config), nl);
    let s = rendered(original, config);
    assert(s == head + block);
    if crlf {
        let i = (head.len() + START_MARKER@.len()) as int;
        assert(s.subrange(i, i + 2) =~= line_end(true));
        assert(occurs_at(s, line_end(true), i));
    } else {
        let inner = host_lines(config.hosts_ip, managed_domains(config), nl);
        lemma_host_lines_returnless(config.hosts_ip, managed_domains(config));
        assert(returnless(line_end(false)));
        lemma_returnless_concat(START_MARKER@, nl);
        lemma_returnless_concat(START_MARKER@ + nl, inner);
        lemma_returnless_concat(START_MARKER@ + nl + inner, END_MARKER@);
        lemma_returnless_concat(START_MARKER@ + nl + inner + END_MARKER@, nl);
        lemma_stripped_lines(original);
        lemma_joined_no_crlf(unmanaged(lines(original), false));
        if occurs(s, line_end(true)) {
            let i = choose|i: int| occurs_at(s, line_end(true), i);
            assert(s.subrange(i, i + 2)[0] == s[i]);
            assert(s.subrange(i, i + 2)[1] == s[i + 1]);
            if i >= head.len() {
                assert(block.contains(block[i - head.len()]));
            } else if i + 1 < c.len() {
                assert(c.subrange(i, i + 2) =~= s.subrange(i, i + 2));
                assert(occurs_at(c, line_end(true), i));
            } else if i < c.len() {
                assert(c.last() == s[i]);
            }
        }
    }
}

proof fn lemma_host_lines_hold(ip: Seq<char>, hosts: Seq<Seq<char>>, crlf: bool, i: int)
    requires
        0 <= i < hosts.len(),
        !"*."@.is_prefix_of(hosts[i]),
        !(ip + " "@ + hosts[i]).contains('\n'),
        crlf || !ends_with_return(ip + " "@ + hosts[i]),
    ensures
        lines(host_lines(ip, hosts, line_end(crlf))).contains(ip + " "@ + hosts[i]),
    decreases hosts.len(),
{
    let nl = line_end(crlf);
    let front = hosts.drop_last();
    let f = host_lines(ip, front, nl);
    let entry = ip + " "@ + hosts[i];
    lemma_host_lines_ended(ip, front, crlf);
    let all = lines(host_lines(ip, hosts, nl));
    if i < front.len() {
        assert(front[i] == hosts[i]);
        lemma_host_lines_hold(ip, front, crlf, i);
        let k = choose|k: int| 0 <= k < lines(f).len() && lines(f)[k] == entry;
        if !"*."@.is_prefix_of(hosts.last()) {
            let more = ip + " "@ + hosts.last() + nl;
            assert(host_lines(ip, hosts, nl) =~= f + more);
            lemma_lines_concat(f, more);
            assert(all[k] == entry);
        }
    } else {
        let more = entry + nl;
        assert(host_lines(ip, hosts, nl) =~= f + more);
        lemma_lines_concat(f, more);
        lemma_lines_first(entry, crlf, Seq::empty());
        assert(entry + nl + Seq::<char>::empty() =~= more);
        assert(all[lines(f).len() as int] == entry);
    }
}

/// After applying a configuration every domain that goes into the hosts file
/// has a line of its own that maps it to the configured address.
pub proof fn law_apply_maps_every_domain(original: Seq<char>, config: ConfigModel, i: int)
    requires
        has_crlf(original) || !ends_with_return(stripped(original)),
        0 <= i < managed_domains(config).len(),
        !"*."@.is_prefix_of(managed_domains(config)[i]),
        !(config.hosts_ip + " "@ + managed_domains(config)[i]).contains('\n'),
        has_crlf(original) || !ends_with_return(
            config.hosts_ip + " "@ + managed_domains(config)[i],
        ),
    ensures
        lines(rendered(original, config)).contains(
            config.hosts_ip + " "@ + managed_domains(config)[i],
        ),
{
    let crlf = has_crlf(original);
    let entry = config.hosts_ip + " "@ + managed_domains(config)[i];
    lemma_host_lines_hold(config.hosts_ip, managed_domains(config), crlf, i);
    law_apply_appends_block(original, config);
    let inner = block_lines(config, newline_of(original));
    let k = choose|k: int| 0 <= k < inner.len() && inner[k] == entry;
    assert(lines(rendered(original, config))[lines(stripped(original)).len() + 1 + k] == entry);
}

proof fn lemma_skipped_to_end(inner: Seq<Seq<char>>, end: Seq<char>, after: Seq<Seq<char>>)
    requires
        forall|i: int| 0 <= i < inner.len() ==> trimmed(#[trigger] inner[i]) != END_MARKER@,
        trimmed(end) == END_MARKER@,
    ensures
        unmanaged(inner, true).len() == 0,
        unmanaged(inner + seq![end] + after, true) == unmanaged(after, false),
    decreases inner.len(),
{
    lemma_markers();
    let all = inner + seq![end] + after;
    if inner.len() == 0 {
        assert(all[0] == end);
        assert(all.skip(1) =~= after);
    } else {
        let tail = inner.skip(1);
        assert forall|i: int| 0 <= i < tail.len() implies trimmed(#[trigger] tail[i])
            != END_MARKER@ by {
            assert(tail[i] == inner[i + 1]);
        }
        lemma_skipped_to_end(tail, end, after);
        assert(all.skip(1) =~= tail + seq![end] + after);
        assert(all[0] == inner[0]);
    }
}

/// Of lines that hold a managed block, from the line `# >>> linuxdo-accelerator
/// >>>` to the line `# <<< linuxdo-accelerator <<<`, with white space around
/// either or not, exactly those before and after the block are left; of a
/// block that is not closed nothing is left, and a closing line alone takes
/// nothing but itself away.
pub proof fn law_block_is_taken_out(
    before: Seq<Seq<char>>,
    start: Seq<char>,
    inner: Seq<Seq<char>>,
    end: Seq<char>,
    after: Seq<Seq<char>>,
)
    requires
        forall|i: int|
            0 <= i < before.len() ==> trimmed(#[trigger] before[i])
                != "# >>> linuxdo-accelerator >>>"@ && trimmed(before[i])
                != "# <<< linuxdo-accelerator <<<"@,
        trimmed(start) == "# >>> linuxdo-accelerator >>>"@,
        forall|i: int|
            0 <= i < inner.len() ==> trimmed(#[trigger] inner[i])
                != "# <<< linuxdo-accelerator <<<"@,
        trimmed(end) == "# <<< linuxdo-accelerator <<<"@,
    ensures
        unmanaged(before + seq![start] + inner + seq![end] + after, false) == before + unmanaged(
            after,
            false,
        ),
        unmanaged(before + seq![start] + inner, false) == before,
        unmanaged(before + seq![end] + after, false) == before + unmanaged(after, false),
        unmanaged(before, false) == before,
{
    let none = Seq::<Seq<char>>::empty();
    lemma_markers();
    assert forall|i: int| 0 <= i < before.len() implies !is_marker(#[trigger] before[i]) by {}
    lemma_skipped_to_end(inner, end, after);
    let block = seq![start] + inner + seq![end] + after;
    assert(block.skip(1) =~= inner + seq![end] + after);
    assert(block[0] == start);
    lemma_unmarked_lines_stay(before, block);
    assert(before + block =~= before + seq![start] + inner + seq![end] + after);
    let open = seq![start] + inner;
    assert(open.skip(1) =~= inner);
    assert(open[0] == start);
    lemma_unmarked_lines_stay(before, open);
    assert(before + open =~= before + seq![start] + inner);
    assert(unmanaged(open, false) =~= none);
    assert(before + none =~= before);
    let closed = seq![end] + after;
    assert(closed.skip(1) =~= after);
    assert(closed[0] == end);
    lemma_unmarked_lines_stay(before, closed);
    assert(before + closed =~= before + seq![end] + after);
    lemma_unmarked_lines_stay(before, none);
    assert(unmanaged(none, false) =~= none);
}

/// Taking the managed blocks out leaves the lines outside them, ended as lines
/// of the file were: with a carriage return and a line feed where it holds the
/// two together, and else with a line feed.
pub proof fn law_lines_outside_are_left(original: Seq<char>)
    ensures
        (exists|i: int|
            0 <= i < original.len() - 1 && #[trigger] original[i] == '\r' && original[i + 1] == '\n')
            ==> stripped(original) == joined(
            unmanaged(lines(original), false),
            seq!['\r', '\n'],
        ),
        (forall|i: int|
            0 <= i < original.len() - 1 ==> !(#[trigger] original[i] == '\r' && original[i + 1]
                == '\n')) ==> stripped(original) == joined(
            unmanaged(lines(original), false),
            seq!['\n'],
        ),
        lines(stripped(original)) == without_last_empty(unmanaged(lines(original), false)),
{
    lemma_crlf_literal();
    lemma_stripped_lines(original);
    if exists|i: int|
        0 <= i < original.len() - 1 && #[trigger] original[i] == '\r' && original[i + 1] == '\n' {
        let i = choose|i: int|
            0 <= i < original.len() - 1 && #[trigger] original[i] == '\r' && original[i + 1]
                == '\n';
        assert(original.subrange(i, i + 2) =~= line_end(true));
        assert(occurs_at(original, "\r\n"@, i));
    } else if has_crlf(original) {
        let i = choose|i: int| occurs_at(original, "\r\n"@, i);
        assert(original.subrange(i, i + 2)[0] == original[i]);
        assert(original.subrange(i, i + 2)[1] == original[i + 1]);
    }
}

proof fn lemma_entries(ip: Seq<char>, hosts: Seq<Seq<char>>, crlf: bool)
    requires
        forall|i: int|
            0 <= i < hosts.len() ==> !(ip + " "@ + #[trigger] hosts[i]).contains('\n') && (crlf
                || !ends_with_return(ip + " "@ + hosts[i])),
    ensures
        lines(host_lines(ip, hosts, line_end(crlf))) == hosts.filter(
            |h: Seq<char>| !"*."@.is_prefix_of(h),
        ).map_values(|h: Seq<char>| ip + " "@ + h),
    decreases hosts.len(),
{
    reveal(Seq::filter);
    let kept = |h: Seq<char>| !"*."@.is_prefix_of(h);
    let shown = |h: Seq<char>| ip + " "@ + h;
    let nl = line_end(crlf);
    if hosts.len() == 0 {
        assert(hosts.filter(kept).map_values(shown) =~= Seq::<Seq<char>>::empty());
    } else {
        let front = hosts.drop_last();
        assert forall|i: int| 0 <= i < front.len() implies !(ip + " "@
            + #[trigger] front[i]).contains('\n') && (crlf || !ends_with_return(
            ip + " "@ + front[i],
        )) by {
            assert(front[i] == hosts[i]);
        }
        lemma_entries(ip, front, crlf);
        lemma_host_lines_ended(ip, front, crlf);
        if kept(hosts.last()) {
            let entry = ip + " "@ + hosts.last();
            let f = host_lines(ip, front, nl);
            assert(hosts[hosts.len() - 1] == hosts.last());
            assert(host_lines(ip, hosts, nl) =~= f + (entry + nl));
            lemma_lines_concat(f, entry + nl);
            lemma_lines_first(entry, crlf, Seq::empty());
            assert(entry + nl + Seq::<char>::empty() =~= entry + nl);
            assert(lines(Seq::<char>::empty()) =~= Seq::<Seq<char>>::empty());
            assert(lines(entry + nl) =~= seq![entry]);
            assert(hosts.filter(kept).map_values(shown) =~= front.filter(kept).map_values(
                shown,
            ).push(entry));
            assert(lines(f) + seq![entry] =~= lines(f).push(entry));
        } else {
            assert(hosts.filter(kept) == front.filter(kept));
        }
    }
}

/// Applying a configuration writes, behind the lines outside managed blocks,
/// one line for each domain that goes into the hosts file, wildcards left out,
/// in their order: the configured address, a space and the domain. They stand
/// between the line that opens a block and the one that closes it.
pub proof fn law_apply_writes_the_entries(original: Seq<char>, config: ConfigModel)
    requires
        has_crlf(original) || !ends_with_return(stripped(original)),
        forall|i: int|
            0 <= i < managed_domains(config).len() ==> !(config.hosts_ip + " "@
                + #[trigger] managed_domains(config)[i]).contains('\n') && (has_crlf(original)
                || !ends_with_return(config.hosts_ip + " "@ + managed_domains(config)[i])),
    ensures
        lines(rendered(original, config)) == lines(stripped(original)) + seq![
            "# >>> linuxdo-accelerator >>>"@,
        ] + managed_domains(config).filter(|h: Seq<char>| !"*."@.is_prefix_of(h)).map_values(
            |h: Seq<char>| config.hosts_ip + " "@ + h,
        ) + seq!["# <<< linuxdo-accelerator <<<"@],
{
    law_apply_appends_block(original, config);
    lemma_entries(config.hosts_ip, managed_domains(config), has_crlf(original));
    let entries = block_lines(config, newline_of(original));
    assert(lines(stripped(original)) + (seq![START_MARKER@] + entries.push(END_MARKER@)) =~= lines(
        stripped(original),
    ) + seq![START_MARKER@] + entries + seq![END_MARKER@]);
}

proof fn lemma_block_joined(ip: Seq<char>, hosts: Seq<Seq<char>>, nl: Seq<char>)
    ensures
        START_MARKER@ + nl + host_lines(ip, hosts, nl) == joined(
            seq![START_MARKER@] + hosts.filter(|h: Seq<char>| !"*."@.is_prefix_of(h)).map_values(
                |h: Seq<char>| ip + " "@ + h,
            ),
            nl,
        ) + nl,
    decreases hosts.len(),
{
    reveal(Seq::filter);
    let kept = |h: Seq<char>| !"*."@.is_prefix_of(h);
    let shown = |h: Seq<char>| ip + " "@ + h;
    let all = seq![START_MARKER@] + hosts.filter(kept).map_values(shown);
    if hosts.len() == 0 {
        assert(all =~= seq![START_MARKER@]);
        assert(START_MARKER@ + nl + host_lines(ip, hosts, nl) =~= START_MARKER@ + nl);
    } else {
        let front = hosts.drop_last();
        lemma_block_joined(ip, front, nl);
        let before = seq![START_MARKER@] + front.filter(kept).map_values(shown);
        if kept(hosts.last()) {
            let entry = ip + " "@ + hosts.last();
            assert(all =~= before.push(entry));
            lemma_joined_push(before, entry, nl);
            assert(START_MARKER@ + nl + host_lines(ip, hosts, nl) =~= (START_MARKER@ + nl
                + host_lines(ip, front, nl)) + entry + nl);
        } else {
            assert(all =~= before);
        }
    }
}

/// The block is written with the line ends of the file, after a line end where
/// the text in front of it has none, and its last line is ended.
pub proof fn law_block_is_ended_as_the_file(
    original: Seq<char>,
    config: ConfigModel,
    newline: Seq<char>,
)
    requires
        newline == if exists|i: int|
            0 <= i < original.len() - 1 && #[trigger] original[i] == '\r' && original[i + 1]
                == '\n' {
            seq!['\r', '\n']
        } else {
            seq!['\n']
        },
    ensures
        rendered(original, config) == stripped(original) + (if stripped(original).len() == 0
            || newline.is_suffix_of(stripped(original)) {
            Seq::empty()
        } else {
            newline
        }) + joined(
            seq!["# >>> linuxdo-accelerator >>>"@] + managed_domains(config).filter(
                |h: Seq<char>| !"*."@.is_prefix_of(h),
            ).map_values(|h: Seq<char>| config.hosts_ip + " "@ + h) + seq![
                "# <<< linuxdo-accelerator <<<"@,
            ],
            newline,
        ) + newline,
{
    lemma_crlf_literal();
    if exists|i: int|
        0 <= i < original.len() - 1 && #[trigger] original[i] == '\r' && original[i + 1] == '\n' {
        let i = choose|i: int|
            0 <= i < original.len() - 1 && #[trigger] original[i] == '\r' && original[i + 1]
                == '\n';
        assert(original.subrange(i, i + 2) =~= line_end(true));
        assert(occurs_at(original, "\r\n"@, i));
    } else if has_crlf(original) {
        let i = choose|i: int| occurs_at(original, "\r\n"@, i);
        assert(original.subrange(i, i + 2)[0] == original[i]);
        assert(original.subrange(i, i + 2)[1] == original[i + 1]);
    }
    assert(newline == newline_of(original));
    let hosts = managed_domains(config);
    let inner = seq![START_MARKER@] + hosts.filter(
        |h: Seq<char>| !"*."@.is_prefix_of(h),
    ).map_values(|h: Seq<char>| config.hosts_ip + " "@ + h);
    lemma_block_joined(config.hosts_ip, hosts, newline);
    lemma_joined_push(inner, END_MARKER@, newline);
    assert(inner + seq![END_MARKER@] =~= inner.push(END_MARKER@));
    let block = managed_block(config.hosts_ip, hosts, newline);
    assert(block =~= joined(inner, newline) + newline + END_MARKER@ + newline);
    let head = stripped(original) + (if stripped(original).len() == 0 || newline.is_suffix_of(
        stripped(original),
    ) {
        Seq::empty()
    } else {
        newline
    });
    assert(ended(stripped(original), newline) =~= head);
    assert(rendered(original, config) =~= head + joined(
        inner.push(END_MARKER@),
        newline,
    ) + newline);
}

} // verus!
