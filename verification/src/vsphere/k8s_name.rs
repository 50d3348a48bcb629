//! Collision-safe Kubernetes object names built from identifying parts.
use vstd::prelude::*;
use crate::text::{
    chars_of, hex_pad, is_alnum, is_alnum_char, join, join_strs, lower, lower_char, push_char,
    push_hex_pad, string_of, strs_view, lemma_split_join,
};

verus! {

/// Kubernetes object names (DNS-1123 labels) cap at this many characters.
pub const MAX_NAME_LEN: usize = 63;

/// Characters kept from the slug before the `-<hash>` suffix.
pub const HEAD_LEN: usize = 54;

pub const FNV_OFFSET_BASIS: u32 = 0x811c_9dc5;
pub const FNV_PRIME: u32 = 0x0100_0193;

/// One scan step of [`slugify`]: alphanumerics are kept (lowercased), a run of
/// anything else becomes one `-`, and nothing is emitted before the first
/// alphanumeric.
pub open spec fn slug_step(acc: (Seq<char>, bool), c: char) -> (Seq<char>, bool) {
    if is_alnum(c) {
        (acc.0.push(lower(c)), false)
    } else if !acc.1 {
        (acc.0.push('-'), true)
    } else {
        acc
    }
}

/// The scan over a whole string: the emitted characters and whether the last
/// one emitted was a dash (initially `true`, so no leading dash).
pub open spec fn slug_scan(s: Seq<char>) -> (Seq<char>, bool)
    decreases s.len(),
{
    if s.len() == 0 {
        (Seq::empty(), true)
    } else {
        slug_step(slug_scan(s.drop_last()), s.last())
    }
}

/// `s` without its trailing `c` characters.
pub open spec fn trim_end(s: Seq<char>, c: char) -> Seq<char>
    decreases s.len(),
{
    if s.len() > 0 && s.last() == c {
        trim_end(s.drop_last(), c)
    } else {
        s
    }
}

/// Lowercase, every run of non-alphanumerics replaced by one `-`, with no
/// leading or trailing dash.
pub open spec fn slug_of(s: Seq<char>) -> Seq<char> {
    trim_end(slug_scan(s).0, '-')
}

/// One FNV-1a round over a byte.
pub open spec fn fnv_step(h: u32, b: u8) -> u32 {
    (((h ^ (b as u32)) as nat * FNV_PRIME as nat) % 0x1_0000_0000) as u32
}

/// 32-bit FNV-1a of a byte string.
pub open spec fn fnv1a(bytes: Seq<u8>) -> u32
    decreases bytes.len(),
{
    if bytes.len() == 0 {
        FNV_OFFSET_BASIS
    } else {
        fnv_step(fnv1a(bytes.drop_last()), bytes.last())
    }
}

/// The 8-hex-digit FNV-1a digest of the UTF-8 encoding of `s`.
pub open spec fn hash8(s: Seq<char>) -> Seq<char> {
    hex_pad(fnv1a(vstd::utf8::encode_utf8(s)) as nat, 8)
}

/// The name [`collision_safe_name`] builds from `parts`.
pub open spec fn safe_name(parts: Seq<Seq<char>>) -> Seq<char> {
    let slug = slug_of(join(parts, seq!['-']));
    if slug.len() <= MAX_NAME_LEN {
        slug
    } else {
        trim_end(slug.take(HEAD_LEN as int), '-') + seq!['-'] + hash8(join(parts, seq!['\0']))
    }
}

/// A character a DNS-1123 label may hold.
pub open spec fn dns_char(c: char) -> bool {
    ||| '0' <= c && c <= '9'
    ||| 'a' <= c && c <= 'z'
    ||| c == '-'
}

/// Bounded, made of `[a-z0-9-]`, and neither starting nor ending with `-`.
pub open spec fn dns_label(s: Seq<char>) -> bool {
    &&& s.len() <= MAX_NAME_LEN
    &&& forall|i: int| 0 <= i < s.len() ==> dns_char(#[trigger] s[i])
    &&& s.len() > 0 ==> s[0] != '-' && s.last() != '-'
}

fn slugify_chars(v: &Vec<char>) -> (r: Vec<char>)
    ensures
        r@ == slug_of(v@),
{
    let mut out: Vec<char> = Vec::new();
    let mut last_was_dash = true;
    let mut i: usize = 0;
    while i < v.len()
        invariant
            0 <= i <= v.len(),
            slug_scan(v@.take(i as int)) == (out@, last_was_dash),
        decreases v.len() - i,
    {
        let c = v[i];
        proof {
            assert(v@.take(i as int + 1).drop_last() =~= v@.take(i as int));
        }
        if is_alnum_char(c) {
            let l = lower_char(c);
            out.push(l);
            last_was_dash = false;
        } else if !last_was_dash {
            out.push('-');
            last_was_dash = true;
        }
        i += 1;
    }
    assert(v@.take(v.len() as int) =~= v@);
    trim_end_vec(out, '-')
}

/// Lowercase `s`, replace any run of non-alphanumeric characters with a
/// single `-`, and strip leading and trailing dashes.
pub fn slugify(s: &str) -> (r: String)
    ensures
        r@ == slug_of(s@),
{
    string_of(&slugify_chars(&chars_of(s)))
}

/// Deterministic 32-bit FNV-1a of the UTF-8 bytes of `s`, as 8 lowercase hex
/// digits.
pub fn stable_hash8(s: &str) -> (r: String)
    ensures
        r@ == hash8(s@),
{
    let h = fnv1a_bytes(s.as_bytes());
    let mut r = String::new();
    push_hex_pad(&mut r, h as u64, 8);
    r
}

fn trim_end_vec(v: Vec<char>, c: char) -> (r: Vec<char>)
    ensures
        r@ == trim_end(v@, c),
{
    let ghost orig = v@;
    let mut v = v;
    while v.len() > 0 && v[v.len() - 1] == c
        invariant
            trim_end(v@, c) == trim_end(orig, c),
        decreases v.len(),
    {
        let ghost before = v@;
        v.pop();
        assert(v@ =~= before.drop_last());
    }
    v
}

} // verus!

verus! {

fn fnv1a_bytes(bytes: &[u8]) -> (h: u32)
    ensures
        h == fnv1a(bytes@),
{
    let mut hash: u32 = FNV_OFFSET_BASIS;
    let mut i: usize = 0;
    while i < bytes.len()
        invariant
            0 <= i <= bytes.len(),
            hash == fnv1a(bytes@.take(i as int)),
        decreases bytes.len() - i,
    {
        proof {
            assert(bytes@.take(i as int + 1).drop_last() =~= bytes@.take(i as int));
        }
        hash = (hash ^ (bytes[i] as u32)).wrapping_mul(FNV_PRIME);
        i += 1;
    }
    assert(bytes@.take(bytes.len() as int) =~= bytes@);
    hash
}

/// Build a DNS-label-safe, collision-resistant name by slugifying and joining
/// `parts` with `-`. When the slug fits within [`MAX_NAME_LEN`] it is returned
/// as is; otherwise it is cut to leave room for `-` and an 8-hex-digit FNV-1a
/// hash of the parts joined by NUL, so that distinct part lists sharing a
/// long prefix still get distinct names.
pub fn collision_safe_name(parts: &[&str]) -> (name: String)
    ensures
        name@ == safe_name(strs_view(parts@)),
        dns_label(name@),
{
    let joined = join_strs(parts, "-");
    proof {
        reveal_strlit("-");
        assert("-"@ =~= seq!['-']);
    }
    let slug = slugify_chars(&chars_of(joined.as_str()));
    let ghost slug_seq = slug@;
    proof {
        lemma_slugify_dns(join(strs_view(parts@), seq!['-']));
    }
    if slug.len() <= MAX_NAME_LEN {
        return string_of(&slug);
    }
    let identity = join_strs(parts, "\u{0}");
    proof {
        reveal_strlit("\u{0}");
        assert("\u{0}"@ =~= seq!['\0']);
    }
    let hash = fnv1a_bytes(identity.as_str().as_bytes());
    let hash_text = stable_hash8(identity.as_str());
    let mut head: Vec<char> = Vec::new();
    let mut i: usize = 0;
    while i < HEAD_LEN
        invariant
            slug.len() > MAX_NAME_LEN,
            0 <= i <= HEAD_LEN,
            head@ == slug@.take(i as int),
        decreases HEAD_LEN - i,
    {
        head.push(slug[i]);
        i += 1;
        assert(head@ =~= slug@.take(i as int));
    }
    let head = trim_end_vec(head, '-');
    let mut name = string_of(&head);
    push_char(&mut name, '-');
    name.append(hash_text.as_str());
    proof {
        lemma_hash_branch_dns(slug@, hash as nat);
    }
    name
}

proof fn lemma_lower_alnum_dns(c: char)
    requires
        is_alnum(c),
    ensures
        dns_char(lower(c)),
        lower(c) != '-',
{
}

proof fn lemma_slug_scan(s: Seq<char>)
    ensures
        forall|i: int| 0 <= i < slug_scan(s).0.len() ==> dns_char(#[trigger] slug_scan(s).0[i]),
        slug_scan(s).0.len() > 0 ==> slug_scan(s).0[0] != '-',
        slug_scan(s).1 == (slug_scan(s).0.len() == 0 || slug_scan(s).0.last() == '-'),
    decreases s.len(),
{
    if s.len() > 0 {
        lemma_slug_scan(s.drop_last());
        let c = s.last();
        if is_alnum(c) {
            lemma_lower_alnum_dns(c);
        }
        let prev = slug_scan(s.drop_last()).0;
        let cur = slug_scan(s).0;
        assert forall|i: int| 0 <= i < cur.len() implies dns_char(#[trigger] cur[i]) by {
            if i < prev.len() {
                assert(cur[i] == prev[i]);
            }
        }
    }
}

proof fn lemma_trim_end(s: Seq<char>, c: char)
    ensures
        trim_end(s, c).len() <= s.len(),
        trim_end(s, c) == s.take(trim_end(s, c).len() as int),
        trim_end(s, c).len() > 0 ==> trim_end(s, c).last() != c,
        s.len() > 0 && s[0] != c ==> trim_end(s, c).len() > 0,
    decreases s.len(),
{
    if s.len() > 0 && s.last() == c {
        lemma_trim_end(s.drop_last(), c);
        let t = trim_end(s.drop_last(), c);
        assert(s.drop_last().take(t.len() as int) =~= s.take(t.len() as int));
        if s.len() > 1 && s[0] != c {
            assert(s.drop_last()[0] == s[0]);
        }
    } else {
        assert(s.take(s.len() as int) =~= s);
    }
}

proof fn lemma_slugify_dns(s: Seq<char>)
    ensures
        forall|i: int| 0 <= i < slug_of(s).len() ==> dns_char(#[trigger] slug_of(s)[i]),
        slug_of(s).len() > 0 ==> slug_of(s)[0] != '-' && slug_of(s).last() != '-',
        slug_of(s).len() <= MAX_NAME_LEN ==> dns_label(slug_of(s)),
{
    let raw = slug_scan(s).0;
    lemma_slug_scan(s);
    lemma_trim_end(raw, '-');
    let t = slug_of(s);
    assert forall|i: int| 0 <= i < t.len() implies dns_char(#[trigger] t[i]) by {
        assert(t[i] == raw.take(t.len() as int)[i]);
    }
    if t.len() > 0 {
        assert(t[0] == raw[0]);
    }
}

proof fn lemma_hex_pad_dns(n: nat, k: nat)
    ensures
        hex_pad(n, k).len() == k,
        forall|i: int| 0 <= i < hex_pad(n, k).len() ==> dns_char(#[trigger] hex_pad(n, k)[i]) && hex_pad(n, k)[i] != '-',
    decreases k,
{
    if k > 0 {
        lemma_hex_pad_dns(n / 16, (k - 1) as nat);
        let d = (n % 16) as nat;
        let c = crate::text::digit_char(d);
        if d < 10 {
            assert(c as u32 == d + 48);
        } else {
            assert(c as u32 == d + 87);
        }
        let prev = hex_pad(n / 16, (k - 1) as nat);
        assert forall|i: int| 0 <= i < hex_pad(n, k).len() implies dns_char(#[trigger] hex_pad(n, k)[i]) && hex_pad(n, k)[i] != '-' by {
            if i < prev.len() {
                assert(hex_pad(n, k)[i] == prev[i]);
            }
        }
    }
}

proof fn lemma_hash_branch_dns(slug: Seq<char>, h: nat)
    requires
        slug.len() > MAX_NAME_LEN,
        forall|i: int| 0 <= i < slug.len() ==> dns_char(#[trigger] slug[i]),
        slug[0] != '-',
    ensures
        dns_label(trim_end(slug.take(HEAD_LEN as int), '-') + seq!['-'] + hex_pad(h, 8)),
{
    let pre = slug.take(HEAD_LEN as int);
    lemma_trim_end(pre, '-');
    lemma_hex_pad_dns(h, 8);
    let head = trim_end(pre, '-');
    let hx = hex_pad(h, 8);
    let name = head + seq!['-'] + hx;
    assert forall|i: int| 0 <= i < name.len() implies dns_char(#[trigger] name[i]) by {
        if i < head.len() {
            assert(name[i] == pre[i]);
            assert(pre[i] == slug[i]);
        } else if i > head.len() {
            assert(name[i] == hx[i - head.len() - 1]);
        }
    }
    assert(name[0] == head[0]);
    assert(head[0] == pre[0]);
    assert(name.last() == hx[7]);
}

// ---------------------------------------------------------------------
// What a slug looks like
// ---------------------------------------------------------------------

/// No `-` right after another `-`.
pub open spec fn no_double_dash(w: Seq<char>) -> bool {
    forall|i: int| 1 <= i < w.len() && #[trigger] w[i] == '-' ==> w[i - 1] != '-'
}

/// `w` has the shape of a slug: `[a-z0-9-]`, no leading or trailing `-`,
/// and no two `-` in a row.
pub open spec fn is_slug(w: Seq<char>) -> bool {
    &&& forall|i: int| 0 <= i < w.len() ==> dns_char(#[trigger] w[i])
    &&& w.len() > 0 ==> w[0] != '-' && w.last() != '-'
    &&& no_double_dash(w)
}

/// `w` with its dashes taken out.
pub open spec fn without_dashes(w: Seq<char>) -> Seq<char>
    decreases w.len(),
{
    if w.len() == 0 {
        Seq::empty()
    } else if w.last() == '-' {
        without_dashes(w.drop_last())
    } else {
        without_dashes(w.drop_last()).push(w.last())
    }
}

/// The ASCII alphanumerics of `s`, lowercased, in order.
pub open spec fn alnum_lowered(s: Seq<char>) -> Seq<char>
    decreases s.len(),
{
    if s.len() == 0 {
        Seq::empty()
    } else if is_alnum(s.last()) {
        alnum_lowered(s.drop_last()).push(lower(s.last()))
    } else {
        alnum_lowered(s.drop_last())
    }
}

proof fn lemma_slug_scan_shape(s: Seq<char>)
    ensures
        no_double_dash(slug_scan(s).0),
        without_dashes(slug_scan(s).0) == alnum_lowered(s),
    decreases s.len(),
{
    if s.len() > 0 {
        let s1 = s.drop_last();
        lemma_slug_scan_shape(s1);
        lemma_slug_scan(s1);
        let prev = slug_scan(s1);
        let cur = slug_scan(s).0;
        let c = s.last();
        if is_alnum(c) {
            lemma_lower_alnum_dns(c);
            assert(cur.drop_last() =~= prev.0);
        } else if !prev.1 {
            assert(cur.drop_last() =~= prev.0);
        }
        assert forall|i: int| 1 <= i < cur.len() && #[trigger] cur[i] == '-' implies cur[i - 1] != '-' by {
            if i < prev.0.len() {
                assert(cur[i] == prev.0[i]);
                assert(cur[i - 1] == prev.0[i - 1]);
            } else {
                assert(cur[i - 1] == prev.0.last());
            }
        }
    }
}

proof fn lemma_trim_keeps(x: Seq<char>)
    ensures
        without_dashes(trim_end(x, '-')) == without_dashes(x),
        no_double_dash(x) ==> no_double_dash(trim_end(x, '-')),
    decreases x.len(),
{
    lemma_trim_end(x, '-');
    if x.len() > 0 && x.last() == '-' {
        lemma_trim_keeps(x.drop_last());
    }
    let t = trim_end(x, '-');
    if no_double_dash(x) {
        assert forall|i: int| 1 <= i < t.len() && #[trigger] t[i] == '-' implies t[i - 1] != '-' by {
            assert(t[i] == x[i]);
            assert(t[i - 1] == x[i - 1]);
        }
    }
}

proof fn lemma_scan_of_slug(w: Seq<char>)
    requires
        forall|i: int| 0 <= i < w.len() ==> dns_char(#[trigger] w[i]),
        w.len() > 0 ==> w[0] != '-',
        no_double_dash(w),
    ensures
        slug_scan(w).0 == w,
        slug_scan(w).1 == (w.len() == 0 || w.last() == '-'),
    decreases w.len(),
{
    if w.len() > 0 {
        let w1 = w.drop_last();
        assert forall|i: int| 0 <= i < w1.len() implies dns_char(#[trigger] w1[i]) by {
            assert(w1[i] == w[i]);
        }
        assert forall|i: int| 1 <= i < w1.len() && #[trigger] w1[i] == '-' implies w1[i - 1] != '-' by {
            assert(w1[i] == w[i]);
            assert(w1[i - 1] == w[i - 1]);
        }
        if w1.len() > 0 {
            assert(w1[0] == w[0]);
        }
        lemma_scan_of_slug(w1);
        let c = w.last();
        assert(dns_char(w[w.len() - 1]));
        if c == '-' {
            assert(w.len() >= 2);
            assert(w[w.len() - 1] == '-');
            assert(w1.last() == w[w.len() - 2]);
        }
        assert(w1.push(c) =~= w);
    }
}

/// A slug is `[a-z0-9-]` with no leading or trailing dash and no two
/// dashes in a row; slugging it again changes nothing; and taking its
/// dashes out leaves the input's ASCII alphanumerics, lowercased.
pub proof fn lemma_slug_shape(s: Seq<char>)
    ensures
        is_slug(slug_of(s)),
        slug_of(slug_of(s)) == slug_of(s),
        without_dashes(slug_of(s)) == alnum_lowered(s),
{
    let t = slug_of(s);
    lemma_slugify_dns(s);
    lemma_slug_scan_shape(s);
    lemma_trim_keeps(slug_scan(s).0);
    lemma_scan_of_slug(t);
}

/// When the slug of the parts is too long for a name, the name ends in `-`
/// and the 8 lowercase hex digits of the 32-bit FNV-1a hash of the UTF-8
/// bytes of the parts joined by NUL; before that stands the slug's head.
pub proof fn lemma_long_name_suffix(parts: Seq<Seq<char>>)
    requires
        slug_of(join(parts, seq!['-'])).len() > MAX_NAME_LEN,
    ensures
        ({
            let n = safe_name(parts);
            let slug = slug_of(join(parts, seq!['-']));
            &&& 9 <= n.len() <= MAX_NAME_LEN
            &&& n.skip(n.len() - 8) == hex_pad(
                fnv1a(vstd::utf8::encode_utf8(join(parts, seq!['\0']))) as nat,
                8,
            )
            &&& n[n.len() - 9] == '-'
            &&& slug.take(n.len() - 9) == n.take(n.len() - 9)
        }),
{
    let slug = slug_of(join(parts, seq!['-']));
    let head = trim_end(slug.take(HEAD_LEN as int), '-');
    lemma_trim_end(slug.take(HEAD_LEN as int), '-');
    let h = hash8(join(parts, seq!['\0']));
    lemma_hex_pad_dns(fnv1a(vstd::utf8::encode_utf8(join(parts, seq!['\0']))) as nat, 8);
    let n = safe_name(parts);
    assert(n == head + seq!['-'] + h);
    assert(n.skip(n.len() - 8) =~= h);
    assert(n.take(n.len() - 9) =~= head);
    assert(slug.take(head.len() as int) =~= head) by {
        assert(head == slug.take(HEAD_LEN as int).take(head.len() as int));
    }
}

/// When the slug of the parts fits in a name, the name is that slug.
pub proof fn lemma_short_name_is_slug(parts: Seq<Seq<char>>)
    requires
        slug_of(join(parts, seq!['-'])).len() <= MAX_NAME_LEN,
    ensures
        safe_name(parts) == slug_of(join(parts, seq!['-'])),
{
}

/// Joining with NUL loses nothing: two different, non-empty lists of parts
/// none of which holds a NUL join to different texts.
pub proof fn lemma_nul_join_injective(p1: Seq<Seq<char>>, p2: Seq<Seq<char>>)
    requires
        p1.len() >= 1,
        p2.len() >= 1,
        forall|i: int| 0 <= i < p1.len() ==> !(#[trigger] p1[i]).contains('\0'),
        forall|i: int| 0 <= i < p2.len() ==> !(#[trigger] p2[i]).contains('\0'),
        p1 != p2,
    ensures
        join(p1, seq!['\0']) != join(p2, seq!['\0']),
{
    lemma_split_join(p1, '\0');
    lemma_split_join(p2, '\0');
}

/// Two long names differ when the NUL-joined parts hash differently: the
/// suffix tells part lists apart even when they join alike with `-`.
pub proof fn lemma_long_names_differ(p1: Seq<Seq<char>>, p2: Seq<Seq<char>>)
    requires
        slug_of(join(p1, seq!['-'])).len() > MAX_NAME_LEN,
        slug_of(join(p2, seq!['-'])).len() > MAX_NAME_LEN,
        hash8(join(p1, seq!['\0'])) != hash8(join(p2, seq!['\0'])),
    ensures
        safe_name(p1) != safe_name(p2),
{
    lemma_long_name_suffix(p1);
    lemma_long_name_suffix(p2);
    let n1 = safe_name(p1);
    let n2 = safe_name(p2);
    if n1 == n2 {
        assert(n1.skip(n1.len() - 8) == n2.skip(n2.len() - 8));
    }
}

} // verus!
