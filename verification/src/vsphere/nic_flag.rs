//! The `--nic` flag of the image-import command: one template NIC as
//! `network=<name>,adapter=<model>,pciSlot=<n>`, every field optional and in
//! any order. Inside a value, `\` escapes the next character, so a network
//! name may hold `,` (written `\,`) and `\` (written `\\`); reading a
//! written flag back gives the same NIC for every name.
use vstd::prelude::*;
use crate::text::{
    chars_of, push_char, debug_str, find_first, first_index, int_dec, int_to_string, is_first_index, join,
    join_strings, lemma_dec_digits, lemma_first_index, lemma_parse_i32_of_numeral,
    owned, parse_i32, parse_i32_spec, quoted, str_eq, contains_seq, debug_plain,
    lemma_debug_plain_subrange, lemma_quoted_occurs,
    strings_view, substring_of, is_digit,
};
use crate::vsphere::api::{
    lemma_nic_adapter_name_round_trip, nic_adapter_from_name, nic_adapter_name, NicAdapter,
    VMImageTemplateNic,
};

verus! {

/// A template NIC as plain values.
pub struct NicModel {
    pub network: Option<Seq<char>>,
    pub adapter: Option<NicAdapter>,
    pub pci_slot: Option<i32>,
}

pub open spec fn nic_model(n: VMImageTemplateNic) -> NicModel {
    NicModel {
        network: match n.network {
            Some(s) => Some(s@),
            None => None,
        },
        adapter: n.adapter,
        pci_slot: n.pci_slot,
    }
}

pub open spec fn unset_nic() -> NicModel {
    NicModel { network: None, adapter: None, pci_slot: None }
}

// ---------------------------------------------------------------------
// Writing
// ---------------------------------------------------------------------

/// A character a network name must escape: the segment separator and the
/// escape character itself.
pub open spec fn is_special(c: char) -> bool {
    c == ',' || c == '\\'
}

pub open spec fn escape_char(c: char) -> Seq<char> {
    if is_special(c) {
        seq!['\\', c]
    } else {
        seq![c]
    }
}

/// `t` with `\` put before each `,` and `\`.
pub open spec fn escape(t: Seq<char>) -> Seq<char>
    decreases t.len(),
{
    if t.len() == 0 {
        Seq::empty()
    } else {
        escape(t.drop_last()) + escape_char(t.last())
    }
}

/// The written `network=` segment: the name escaped.
pub open spec fn network_part(v: Seq<char>) -> Seq<char> {
    "network="@ + escape(v)
}

/// The `network=` segment once read: the name as it is.
pub open spec fn network_segment(v: Seq<char>) -> Seq<char> {
    "network="@ + v
}

pub open spec fn adapter_part(a: NicAdapter) -> Seq<char> {
    "adapter="@ + nic_adapter_name(a)
}

pub open spec fn pci_part(p: i32) -> Seq<char> {
    "pciSlot="@ + int_dec(p as int)
}

/// The written `key=value` segments of a NIC, in the order network,
/// adapter, pciSlot, unset fields left out.
pub open spec fn flag_parts(n: NicModel) -> Seq<Seq<char>> {
    (match n.network {
        Some(v) => seq![network_part(v)],
        None => Seq::empty(),
    }) + (match n.adapter {
        Some(a) => seq![adapter_part(a)],
        None => Seq::empty(),
    }) + (match n.pci_slot {
        Some(p) => seq![pci_part(p)],
        None => Seq::empty(),
    })
}

/// The same segments as read back, escapes removed.
pub open spec fn read_parts(n: NicModel) -> Seq<Seq<char>> {
    (match n.network {
        Some(v) => seq![network_segment(v)],
        None => Seq::empty(),
    }) + (match n.adapter {
        Some(a) => seq![adapter_part(a)],
        None => Seq::empty(),
    }) + (match n.pci_slot {
        Some(p) => seq![pci_part(p)],
        None => Seq::empty(),
    })
}

pub open spec fn nic_flag_text(n: NicModel) -> Seq<char> {
    join(flag_parts(n), ","@)
}

/// `v` escaped for a `network=` value.
fn escape_network(v: &str) -> (r: String)
    ensures
        r@ == escape(v@),
{
    let c = chars_of(v);
    let mut r = String::new();
    let mut i: usize = 0;
    while i < c.len()
        invariant
            i <= c.len(),
            c@ == v@,
            r@ == escape(c@.take(i as int)),
        decreases c.len() - i,
    {
        proof {
            assert(c@.take(i as int + 1).drop_last() =~= c@.take(i as int));
            assert(c@.take(i as int + 1).last() == c@[i as int]);
        }
        let ghost before = r@;
        let x = c[i];
        if x == ',' || x == '\\' {
            push_char(&mut r, '\\');
        }
        push_char(&mut r, x);
        proof {
            assert(r@ =~= before + escape_char(x));
        }
        i += 1;
    }
    proof {
        assert(c@.take(c.len() as int) =~= c@);
    }
    r
}

/// The `--nic` value for a NIC; empty when nothing is set.
pub fn serialize_nic_flag(nic: &VMImageTemplateNic) -> (r: String)
    ensures
        r@ == nic_flag_text(nic_model(*nic)),
{
    let mut parts: Vec<String> = Vec::new();
    let ghost n = nic_model(*nic);
    if let Some(network) = &nic.network {
        let mut p = owned("network=");
        let e = escape_network(network.as_str());
        p.append(e.as_str());
        parts.push(p);
    }
    let ghost after_network = strings_view(parts@);
    if let Some(a) = nic.adapter {
        let mut p = owned("adapter=");
        p.append(a.as_str());
        parts.push(p);
    }
    let ghost after_adapter = strings_view(parts@);
    if let Some(slot) = nic.pci_slot {
        let mut p = owned("pciSlot=");
        let d = int_to_string(slot as i64);
        p.append(d.as_str());
        parts.push(p);
    }
    proof {
        assert(after_network =~= match n.network {
            Some(v) => seq![network_part(v)],
            None => Seq::<Seq<char>>::empty(),
        });
        assert(after_adapter =~= after_network + match n.adapter {
            Some(a) => seq![adapter_part(a)],
            None => Seq::<Seq<char>>::empty(),
        });
        assert(strings_view(parts@) =~= flag_parts(n));
    }
    join_strings(&parts, ",")
}

// ---------------------------------------------------------------------
// Reading
// ---------------------------------------------------------------------

pub open spec fn segment_error(seg: Seq<char>) -> Seq<char> {
    "--nic segment "@ + debug_str(seg)
        + " must be key=value (expected one of network, adapter, pciSlot)"@
}

pub open spec fn adapter_error(value: Seq<char>) -> Seq<char> {
    "--nic adapter="@ + debug_str(value) + ": unknown NIC adapter "@ + debug_str(value)
        + " (expected one of vmxnet3, vmxnet2, e1000, e1000e)"@
}

pub open spec fn pci_slot_error(value: Seq<char>) -> Seq<char> {
    "--nic pciSlot="@ + debug_str(value) + " is not a valid integer"@
}

pub open spec fn key_error(key: Seq<char>) -> Seq<char> {
    "--nic key "@ + debug_str(key) + " not recognized (expected one of network, adapter, pciSlot)"@
}

/// `n` after one `key=value` segment; the value is everything after the
/// first `=`.
pub open spec fn apply_segment(n: NicModel, seg: Seq<char>) -> Result<NicModel, Seq<char>> {
    if !seg.contains('=') {
        Err(segment_error(seg))
    } else {
        let q = first_index(seg, '=');
        let key = seg.subrange(0, q);
        let value = seg.subrange(q + 1, seg.len() as int);
        if key == "network"@ {
            Ok(NicModel { network: Some(value), ..n })
        } else if key == "adapter"@ {
            match nic_adapter_from_name(value) {
                Some(a) => Ok(NicModel { adapter: Some(a), ..n }),
                None => Err(adapter_error(value)),
            }
        } else if key == "pciSlot"@ {
            match parse_i32_spec(value) {
                Some(p) => Ok(NicModel { pci_slot: Some(p), ..n }),
                None => Err(pci_slot_error(value)),
            }
        } else {
            Err(key_error(key))
        }
    }
}

/// The NIC the segments set, later segments overriding earlier ones, or the
/// error of the first bad segment.
pub open spec fn segments_result(segs: Seq<Seq<char>>) -> Result<NicModel, Seq<char>>
    decreases segs.len(),
{
    if segs.len() == 0 {
        Ok(unset_nic())
    } else {
        match segments_result(segs.drop_last()) {
            Err(m) => Err(m),
            Ok(n) => apply_segment(n, segs.last()),
        }
    }
}

/// The segments of `s` after `done` and the current segment `cur`: an
/// unescaped `,` ends a segment, `\` takes the next character as it is (a
/// `\` at the very end stands for itself).
pub open spec fn scan_segments(s: Seq<char>, done: Seq<Seq<char>>, cur: Seq<char>) -> Seq<Seq<char>>
    decreases s.len(),
{
    if s.len() == 0 {
        done.push(cur)
    } else if s[0] == '\\' && s.len() >= 2 {
        scan_segments(s.subrange(2, s.len() as int), done, cur.push(s[1]))
    } else if s[0] == ',' {
        scan_segments(s.subrange(1, s.len() as int), done.push(cur), Seq::empty())
    } else {
        scan_segments(s.subrange(1, s.len() as int), done, cur.push(s[0]))
    }
}

/// The segments of a `--nic` value, escapes removed.
pub open spec fn flag_segments(s: Seq<char>) -> Seq<Seq<char>> {
    scan_segments(s, Seq::empty(), Seq::empty())
}

/// What a `--nic` value parses to: nothing set for an empty value, else the
/// segments applied in order.
pub open spec fn parse_nic_flag_spec(s: Seq<char>) -> Result<NicModel, Seq<char>> {
    if s.len() == 0 {
        Ok(unset_nic())
    } else {
        segments_result(flag_segments(s))
    }
}

/// The segments of `s`, escapes removed.
fn split_flag_segments(s: &str) -> (r: Vec<String>)
    ensures
        strings_view(r@) == flag_segments(s@),
{
    let c = chars_of(s);
    let mut done: Vec<String> = Vec::new();
    let mut cur = String::new();
    let mut i: usize = 0;
    proof {
        assert(c@.subrange(0, c@.len() as int) =~= c@);
        assert(strings_view(done@) =~= Seq::<Seq<char>>::empty());
    }
    while i < c.len()
        invariant
            i <= c.len(),
            c@ == s@,
            scan_segments(c@.subrange(i as int, c@.len() as int), strings_view(done@), cur@)
                == flag_segments(s@),
        decreases c.len() - i,
    {
        let ghost rest = c@.subrange(i as int, c@.len() as int);
        if c[i] == '\\' && i + 1 < c.len() {
            proof {
                assert(rest.subrange(2, rest.len() as int) =~= c@.subrange(i as int + 2, c@.len() as int));
            }
            push_char(&mut cur, c[i + 1]);
            i += 2;
        } else if c[i] == ',' {
            proof {
                assert(rest.subrange(1, rest.len() as int) =~= c@.subrange(i as int + 1, c@.len() as int));
            }
            let ghost d = strings_view(done@);
            let ghost cv = cur@;
            done.push(cur);
            cur = String::new();
            proof {
                assert(strings_view(done@) =~= d.push(cv));
            }
            i += 1;
        } else {
            proof {
                assert(rest.subrange(1, rest.len() as int) =~= c@.subrange(i as int + 1, c@.len() as int));
            }
            push_char(&mut cur, c[i]);
            i += 1;
        }
    }
    proof {
        assert(c@.subrange(i as int, c@.len() as int) =~= Seq::<char>::empty());
    }
    let ghost d = strings_view(done@);
    let ghost last = cur@;
    done.push(cur);
    proof {
        assert(strings_view(done@) =~= d.push(last));
    }
    done
}

proof fn lemma_segments_error_sticks(segs: Seq<Seq<char>>, i: int)
    requires
        0 <= i <= segs.len(),
        segments_result(segs.take(i)) is Err,
    ensures
        segments_result(segs) == segments_result(segs.take(i)),
    decreases segs.len(),
{
    if i < segs.len() {
        assert(segs.drop_last().take(i) =~= segs.take(i));
        lemma_segments_error_sticks(segs.drop_last(), i);
    } else {
        assert(segs.take(i) =~= segs);
    }
}

/// The part of a segment its error names: the whole segment when it has no
/// `=`, the value of a known key, else the key.
pub open spec fn offending_part(seg: Seq<char>) -> Seq<char> {
    if !seg.contains('=') {
        seg
    } else {
        let q = first_index(seg, '=');
        let key = seg.subrange(0, q);
        if key == "adapter"@ || key == "pciSlot"@ {
            seg.subrange(q + 1, seg.len() as int)
        } else {
            key
        }
    }
}

/// Applies one segment to `nic`.
fn apply_segment_to(nic: &mut VMImageTemplateNic, seg: &str) -> (r: Result<(), String>)
    ensures
        match r {
            Ok(()) => apply_segment(nic_model(*old(nic)), seg@) == Ok::<NicModel, Seq<char>>(
                nic_model(*final(nic)),
            ),
            Err(m) => apply_segment(nic_model(*old(nic)), seg@) == Err::<NicModel, Seq<char>>(
                m@,
            ),
        },
        r matches Err(m) ==> (debug_plain(seg@) ==> contains_seq(m@, offending_part(seg@))),
{
    let c = chars_of(seg);
    let q = match find_first(&c, '=') {
        Some(q) => q,
        None => {
            let mut m = owned("--nic segment ");
            let d = quoted(seg);
            m.append(d.as_str());
            m.append(" must be key=value (expected one of network, adapter, pciSlot)");
            proof {
                if debug_plain(seg@) {
                    let pre = "--nic segment "@;
                    let post = " must be key=value (expected one of network, adapter, pciSlot)"@;
                    assert(m@ =~= pre + (seq!['"'] + seg@ + seq!['"']) + post);
                    lemma_quoted_occurs(pre, seg@, post);
                    assert(!seg@.contains('='));
                }
            }
            return Err(m);
        },
    };
    proof {
        lemma_first_index(c@, '=', q as int);
    }
    assert(q < c.len());
    let key = substring_of(&c, 0, q);
    let value = substring_of(&c, q + 1, c.len());
    proof {
        if debug_plain(seg@) {
            lemma_debug_plain_subrange(seg@, 0, q as int);
            lemma_debug_plain_subrange(seg@, q as int + 1, seg@.len() as int);
        }
    }
    if str_eq(key.as_str(), "network") {
        nic.network = Some(value);
        Ok(())
    } else if str_eq(key.as_str(), "adapter") {
        match NicAdapter::from_name(value.as_str()) {
            Some(a) => {
                nic.adapter = Some(a);
                Ok(())
            },
            None => {
                let mut m = owned("--nic adapter=");
                let d = quoted(value.as_str());
                m.append(d.as_str());
                m.append(": unknown NIC adapter ");
                m.append(d.as_str());
                m.append(" (expected one of vmxnet3, vmxnet2, e1000, e1000e)");
                proof {
                    if debug_plain(seg@) {
                        let pre = "--nic adapter="@;
                        let post = ": unknown NIC adapter "@ + d@
                            + " (expected one of vmxnet3, vmxnet2, e1000, e1000e)"@;
                        assert(m@ =~= pre + (seq!['"'] + value@ + seq!['"']) + post);
                        lemma_quoted_occurs(pre, value@, post);
                    }
                }
                Err(m)
            },
        }
    } else if str_eq(key.as_str(), "pciSlot") {
        match parse_i32(value.as_str()) {
            Some(p) => {
                nic.pci_slot = Some(p);
                Ok(())
            },
            None => {
                let mut m = owned("--nic pciSlot=");
                let d = quoted(value.as_str());
                m.append(d.as_str());
                m.append(" is not a valid integer");
                proof {
                    if debug_plain(seg@) {
                        let pre = "--nic pciSlot="@;
                        let post = " is not a valid integer"@;
                        assert(m@ =~= pre + (seq!['"'] + value@ + seq!['"']) + post);
                        lemma_quoted_occurs(pre, value@, post);
                    }
                }
                Err(m)
            },
        }
    } else {
        let mut m = owned("--nic key ");
        let d = quoted(key.as_str());
        m.append(d.as_str());
        m.append(" not recognized (expected one of network, adapter, pciSlot)");
        proof {
            if debug_plain(seg@) {
                let pre = "--nic key "@;
                let post = " not recognized (expected one of network, adapter, pciSlot)"@;
                assert(m@ =~= pre + (seq!['"'] + key@ + seq!['"']) + post);
                lemma_quoted_occurs(pre, key@, post);
            }
        }
        Err(m)
    }
}

/// Parse a `--nic` value. Unset fields stay unset; an empty value sets
/// nothing.
pub fn parse_nic_flag(s: &str) -> (r: Result<VMImageTemplateNic, String>)
    ensures
        match r {
            Ok(n) => parse_nic_flag_spec(s@) == Ok::<NicModel, Seq<char>>(nic_model(n)),
            Err(m) => parse_nic_flag_spec(s@) == Err::<NicModel, Seq<char>>(m@),
        },
        r matches Err(m) ==> exists|i: int|
            0 <= i < flag_segments(s@).len() && apply_segment(
                unset_nic(),
                #[trigger] flag_segments(s@)[i],
            ) is Err && (debug_plain(flag_segments(s@)[i]) ==> contains_seq(
                m@,
                offending_part(flag_segments(s@)[i]),
            )),
{
    let mut nic = VMImageTemplateNic::unset();
    if s.is_empty() {
        return Ok(nic);
    }
    let segs = split_flag_segments(s);
    let ghost ss = strings_view(segs@);
    let mut i: usize = 0;
    proof {
        assert(ss.take(0) =~= Seq::<Seq<char>>::empty());
    }
    while i < segs.len()
        invariant
            i <= segs.len(),
            ss == strings_view(segs@),
            ss == flag_segments(s@),
            s@.len() > 0,
            segments_result(ss.take(i as int)) == Ok::<NicModel, Seq<char>>(nic_model(nic)),
        decreases segs.len() - i,
    {
        proof {
            assert(ss.take(i as int + 1).drop_last() =~= ss.take(i as int));
            assert(ss.take(i as int + 1).last() == ss[i as int]);
        }
        match apply_segment_to(&mut nic, segs[i].as_str()) {
            Ok(()) => {},
            Err(m) => {
                proof {
                    lemma_segments_error_sticks(ss, i as int + 1);
                    assert(apply_segment(unset_nic(), ss[i as int]) is Err);
                }
                return Err(m);
            },
        }
        i += 1;
    }
    proof {
        assert(ss.take(segs.len() as int) =~= ss);
    }
    Ok(nic)
}

// ---------------------------------------------------------------------
// Round trip
// ---------------------------------------------------------------------

/// `t` holds neither `,` nor `\`, so writing it escapes nothing.
pub open spec fn plain(t: Seq<char>) -> bool {
    !t.contains(',') && !t.contains('\\')
}

proof fn lemma_plain_concat(a: Seq<char>, b: Seq<char>)
    requires
        plain(a),
        plain(b),
    ensures
        plain(a + b),
{
    assert forall|c: char| is_special(c) implies !(a + b).contains(c) by {
        if (a + b).contains(c) {
            let i = choose|i: int| 0 <= i < (a + b).len() && (a + b)[i] == c;
            if i < a.len() {
                assert(a[i] == c);
            } else {
                assert(b[i - a.len()] == c);
            }
        }
    }
}

proof fn lemma_escape_plain(t: Seq<char>)
    requires
        plain(t),
    ensures
        escape(t) == t,
    decreases t.len(),
{
    if t.len() > 0 {
        let t1 = t.drop_last();
        assert(plain(t1)) by {
            if t1.contains(',') {
                let i = choose|i: int| 0 <= i < t1.len() && t1[i] == ',';
                assert(t[i] == ',');
            }
            if t1.contains('\\') {
                let i = choose|i: int| 0 <= i < t1.len() && t1[i] == '\\';
                assert(t[i] == '\\');
            }
        }
        lemma_escape_plain(t1);
        let l = t.last();
        assert(!is_special(l)) by {
            assert(t[t.len() - 1] == l);
        }
        assert(t1 + seq![l] =~= t);
    }
}

proof fn lemma_escape_concat(a: Seq<char>, b: Seq<char>)
    ensures
        escape(a + b) == escape(a) + escape(b),
    decreases b.len(),
{
    if b.len() == 0 {
        assert(a + b =~= a);
        assert(escape(a) + escape(b) =~= escape(a));
    } else {
        let b1 = b.drop_last();
        assert((a + b).drop_last() =~= a + b1);
        assert((a + b).last() == b.last());
        lemma_escape_concat(a, b1);
        assert(escape(a + b) =~= escape(a) + escape(b));
    }
}

proof fn lemma_scan_char(c: char, r: Seq<char>, d: Seq<Seq<char>>, cur: Seq<char>)
    ensures
        scan_segments(escape_char(c) + r, d, cur) == scan_segments(r, d, cur.push(c)),
{
    let s = escape_char(c) + r;
    if is_special(c) {
        assert(s[0] == '\\');
        assert(s[1] == c);
        assert(s.subrange(2, s.len() as int) =~= r);
    } else {
        assert(s[0] == c);
        assert(s.subrange(1, s.len() as int) =~= r);
    }
}

proof fn lemma_scan_comma(r: Seq<char>, d: Seq<Seq<char>>, cur: Seq<char>)
    ensures
        scan_segments(seq![','] + r, d, cur) == scan_segments(r, d.push(cur), Seq::empty()),
{
    let s = seq![','] + r;
    assert(s[0] == ',');
    assert(s.subrange(1, s.len() as int) =~= r);
}

/// Scanning an escaped text adds the text itself to the current segment.
proof fn lemma_scan_escaped(t: Seq<char>, r: Seq<char>, d: Seq<Seq<char>>, cur: Seq<char>)
    ensures
        scan_segments(escape(t) + r, d, cur) == scan_segments(r, d, cur + t),
    decreases t.len(),
{
    if t.len() == 0 {
        assert(escape(t) + r =~= r);
        assert(cur + t =~= cur);
    } else {
        let t1 = t.drop_last();
        let l = t.last();
        assert(escape(t) + r =~= escape(t1) + (escape_char(l) + r));
        lemma_scan_escaped(t1, escape_char(l) + r, d, cur);
        lemma_scan_char(l, r, d, cur + t1);
        assert((cur + t1).push(l) =~= cur + t);
    }
}

/// Scanning escaped segments joined by `,` gives back the segments.
proof fn lemma_scan_join(
    enc: Seq<Seq<char>>,
    dec: Seq<Seq<char>>,
    rest: Seq<char>,
    done: Seq<Seq<char>>,
)
    requires
        enc.len() == dec.len(),
        enc.len() >= 1,
        forall|i: int| 0 <= i < enc.len() ==> #[trigger] enc[i] == escape(dec[i]),
    ensures
        scan_segments(join(enc, seq![',']) + rest, done, Seq::empty()) == scan_segments(
            rest,
            done + dec.drop_last(),
            dec.last(),
        ),
    decreases enc.len(),
{
    let sep = seq![','];
    if enc.len() == 1 {
        assert(join(enc, sep) == enc[0]);
        assert(enc[0] == escape(dec[0]));
        lemma_scan_escaped(dec[0], rest, done, Seq::empty());
        assert(Seq::<char>::empty() + dec[0] =~= dec[0]);
        assert(done + dec.drop_last() =~= done);
    } else {
        let e1 = enc.drop_last();
        let d1 = dec.drop_last();
        let last = enc.last();
        assert(last == enc[enc.len() - 1]);
        assert(last == escape(dec.last()));
        assert forall|i: int| 0 <= i < e1.len() implies #[trigger] e1[i] == escape(d1[i]) by {
            assert(e1[i] == enc[i]);
            assert(d1[i] == dec[i]);
        }
        assert(join(enc, sep) + rest =~= join(e1, sep) + (sep + (last + rest)));
        lemma_scan_join(e1, d1, sep + (last + rest), done);
        lemma_scan_comma(last + rest, done + d1.drop_last(), d1.last());
        lemma_scan_escaped(dec.last(), rest, (done + d1.drop_last()).push(d1.last()), Seq::empty());
        assert((done + d1.drop_last()).push(d1.last()) =~= done + dec.drop_last());
        assert(Seq::<char>::empty() + dec.last() =~= dec.last());
    }
}

proof fn lemma_key_value(lit: Seq<char>, key: Seq<char>, v: Seq<char>)
    requires
        lit.len() == key.len() + 1,
        lit == key.push('='),
        !key.contains('='),
    ensures
        (lit + v).contains('='),
        first_index(lit + v, '=') == key.len(),
        (lit + v).subrange(0, key.len() as int) == key,
        (lit + v).subrange(key.len() as int + 1, (lit + v).len() as int) == v,
{
    let s = lit + v;
    let k = key.len() as int;
    assert(s[k] == '=');
    assert forall|j: int| 0 <= j < k implies #[trigger] s[j] != '=' by {
        assert(s[j] == key[j]);
        if key[j] == '=' {
            assert(key.contains('='));
        }
    }
    assert(is_first_index(s, '=', k));
    lemma_first_index(s, '=', k);
    assert(s.subrange(0, k) =~= key);
    assert(s.subrange(k + 1, s.len() as int) =~= v);
}

proof fn lemma_literals()
    ensures
        "network="@ == "network"@.push('='),
        "adapter="@ == "adapter"@.push('='),
        "pciSlot="@ == "pciSlot"@.push('='),
        !"network"@.contains('='),
        !"adapter"@.contains('='),
        !"pciSlot"@.contains('='),
        plain("network="@),
        plain("adapter="@),
        plain("pciSlot="@),
        "network="@.len() > 0,
        "adapter="@.len() > 0,
        "pciSlot="@.len() > 0,
        "network"@ != "adapter"@,
        "network"@ != "pciSlot"@,
        "adapter"@ != "pciSlot"@,
        ","@ == seq![','],
{
    reveal_strlit("network=");
    reveal_strlit("adapter=");
    reveal_strlit("pciSlot=");
    reveal_strlit("network");
    reveal_strlit("adapter");
    reveal_strlit("pciSlot");
    reveal_strlit(",");
    assert("network="@ =~= "network"@.push('='));
    assert("adapter="@ =~= "adapter"@.push('='));
    assert("pciSlot="@ =~= "pciSlot"@.push('='));
    assert("network"@[0] != "adapter"@[0]);
    assert("network"@[0] != "pciSlot"@[0]);
    assert("adapter"@[0] != "pciSlot"@[0]);
    assert(","@ =~= seq![',']);
}

proof fn lemma_adapter_name_plain(a: NicAdapter)
    ensures
        plain(nic_adapter_name(a)),
{
    reveal_strlit("vmxnet3");
    reveal_strlit("vmxnet2");
    reveal_strlit("e1000");
    reveal_strlit("e1000e");
}

proof fn lemma_numeral_plain(p: i32)
    ensures
        plain(int_dec(p as int)),
{
    let m: nat = if p < 0 { (-(p as int)) as nat } else { p as nat };
    lemma_dec_digits(m);
    let d = crate::text::dec(m);
    assert(plain(d)) by {
        if d.contains(',') {
            let i = choose|i: int| 0 <= i < d.len() && d[i] == ',';
            assert(is_digit(d[i]));
        }
        if d.contains('\\') {
            let i = choose|i: int| 0 <= i < d.len() && d[i] == '\\';
            assert(is_digit(d[i]));
        }
    }
    if p < 0 {
        assert(plain(seq!['-']));
        lemma_plain_concat(seq!['-'], d);
    }
}

/// The written segments are the read segments, escaped; the read segments
/// set exactly the NIC's fields.
proof fn lemma_parts(n: NicModel)
    ensures
        flag_parts(n).len() == read_parts(n).len(),
        forall|i: int|
            0 <= i < flag_parts(n).len() ==> #[trigger] flag_parts(n)[i] == escape(
                read_parts(n)[i],
            ),
        forall|i: int| 0 <= i < flag_parts(n).len() ==> (#[trigger] flag_parts(n)[i]).len() > 0,
        segments_result(read_parts(n)) == Ok::<NicModel, Seq<char>>(n),
{
    lemma_literals();
    let a = match n.network {
        Some(v) => seq![network_part(v)],
        None => Seq::<Seq<char>>::empty(),
    };
    let b = match n.adapter {
        Some(x) => seq![adapter_part(x)],
        None => Seq::<Seq<char>>::empty(),
    };
    let c = match n.pci_slot {
        Some(p) => seq![pci_part(p)],
        None => Seq::<Seq<char>>::empty(),
    };
    let a2 = match n.network {
        Some(v) => seq![network_segment(v)],
        None => Seq::<Seq<char>>::empty(),
    };
    assert(flag_parts(n) == a + b + c);
    assert(read_parts(n) == a2 + b + c);
    if let Some(v) = n.network {
        lemma_escape_concat("network="@, v);
        lemma_escape_plain("network="@);
        assert(network_part(v) == escape(network_segment(v)));
    }
    if let Some(x) = n.adapter {
        lemma_adapter_name_plain(x);
        lemma_plain_concat("adapter="@, nic_adapter_name(x));
        lemma_escape_plain(adapter_part(x));
    }
    if let Some(p) = n.pci_slot {
        lemma_numeral_plain(p);
        lemma_plain_concat("pciSlot="@, int_dec(p as int));
        lemma_escape_plain(pci_part(p));
    }
    assert forall|i: int| 0 <= i < flag_parts(n).len() implies #[trigger] flag_parts(n)[i]
        == escape(read_parts(n)[i]) && flag_parts(n)[i].len() > 0 by {
        if i < a.len() {
            assert(flag_parts(n)[i] == a[i]);
            assert(read_parts(n)[i] == a2[i]);
        } else if i < a.len() + b.len() {
            assert(flag_parts(n)[i] == b[i - a.len()]);
            assert(read_parts(n)[i] == b[i - a.len()]);
        } else {
            assert(flag_parts(n)[i] == c[i - a.len() - b.len()]);
            assert(read_parts(n)[i] == c[i - a.len() - b.len()]);
        }
    }
    // each segment applies its own field
    let m0 = unset_nic();
    let m1 = NicModel { network: n.network, ..m0 };
    let m2 = NicModel { adapter: n.adapter, ..m1 };
    assert(segments_result(Seq::<Seq<char>>::empty()) == Ok::<NicModel, Seq<char>>(m0));
    if let Some(v) = n.network {
        lemma_key_value("network="@, "network"@, v);
        assert(a2.drop_last() =~= Seq::<Seq<char>>::empty());
        assert(a2.last() == network_segment(v));
        assert(apply_segment(m0, network_segment(v)) == Ok::<NicModel, Seq<char>>(m1));
    } else {
        assert(a2 =~= Seq::<Seq<char>>::empty());
    }
    assert(segments_result(a2) == Ok::<NicModel, Seq<char>>(m1));
    if let Some(x) = n.adapter {
        lemma_key_value("adapter="@, "adapter"@, nic_adapter_name(x));
        lemma_nic_adapter_name_round_trip(x);
        assert(a2 + b =~= a2.push(adapter_part(x)));
        assert((a2 + b).drop_last() =~= a2);
        assert(apply_segment(m1, adapter_part(x)) == Ok::<NicModel, Seq<char>>(m2));
    } else {
        assert(a2 + b =~= a2);
    }
    assert(segments_result(a2 + b) == Ok::<NicModel, Seq<char>>(m2));
    if let Some(p) = n.pci_slot {
        lemma_key_value("pciSlot="@, "pciSlot"@, int_dec(p as int));
        lemma_parse_i32_of_numeral(p);
        assert(a2 + b + c =~= (a2 + b).push(pci_part(p)));
        assert((a2 + b + c).drop_last() =~= a2 + b);
        assert(apply_segment(m2, pci_part(p)) == Ok::<NicModel, Seq<char>>(n));
    } else {
        assert(a2 + b + c =~= a2 + b);
    }
}

/// Reading back what was written gives the same NIC, whatever its network
/// name holds.
pub proof fn lemma_nic_flag_round_trip(n: NicModel)
    ensures
        parse_nic_flag_spec(nic_flag_text(n)) == Ok::<NicModel, Seq<char>>(n),
{
    lemma_literals();
    lemma_parts(n);
    let parts = flag_parts(n);
    let segs = read_parts(n);
    if parts.len() == 0 {
        assert(nic_flag_text(n) =~= Seq::<char>::empty());
        assert(segs =~= Seq::<Seq<char>>::empty());
        assert(n.network is None && n.adapter is None && n.pci_slot is None);
    } else {
        lemma_scan_join(parts, segs, Seq::empty(), Seq::empty());
        assert(nic_flag_text(n) + Seq::<char>::empty() =~= nic_flag_text(n));
        assert(Seq::<Seq<char>>::empty() + segs.drop_last() =~= segs.drop_last());
        assert(segs.drop_last().push(segs.last()) =~= segs);
        assert(flag_segments(nic_flag_text(n)) == segs);
        assert(parts[0].len() > 0);
        crate::text::lemma_join_len_positive(parts, ","@);
    }
}

} // verus!
