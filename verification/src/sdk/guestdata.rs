//! Guest-data placeholder substitution for a VM's cloud-config: a fixed,
//! documented placeholder set, replaced literally (no templating engine).
use vstd::prelude::*;
use crate::text::{
    ends_with, has_suffix, int_dec, join, join_strings, lower_seq, owned, push_char,
    replace, replace_all, strings_view, to_lower, int_to_string,
};

verus! {

/// A resolved static network override of one NIC.
pub struct StaticIpamConfig {
    /// Address, without prefix length.
    pub address: String,
    /// Prefix length.
    pub prefix: u8,
    /// Default gateway.
    pub gateway: Option<String>,
    /// DNS servers.
    pub nameservers: Vec<String>,
    /// DNS search domain.
    pub domain: Option<String>,
}

/// Values available for substitution into a raw cloud-config.
pub struct GuestDataContext<'a> {
    pub vm_name: &'a str,
    pub static_: Option<&'a StaticIpamConfig>,
}

impl<'a> GuestDataContext<'a> {
    /// Build a context from a VM name and its resolved static network
    /// override, if any (`None` for a plain `dhcp` interface: every network
    /// placeholder then substitutes to the empty string).
    pub fn from_static(vm_name: &'a str, static_: Option<&'a StaticIpamConfig>) -> (ctx: Self)
        ensures
            ctx.vm_name == vm_name,
            ctx.static_ == static_,
    {
        Self { vm_name, static_ }
    }
}

pub open spec fn opt_view(o: Option<String>) -> Seq<char> {
    match o {
        Some(s) => s@,
        None => Seq::empty(),
    }
}

/// `${DOMAIN}`: the static `domain`, or empty.
pub open spec fn domain_value(st: Option<&StaticIpamConfig>) -> Seq<char> {
    match st {
        Some(s) => opt_view(s.domain),
        None => Seq::empty(),
    }
}

/// `${IP}`: the static `address`, or empty.
pub open spec fn address_value(st: Option<&StaticIpamConfig>) -> Seq<char> {
    match st {
        Some(s) => s.address@,
        None => Seq::empty(),
    }
}

/// `${PREFIX}`: the static `prefix` in decimal, or empty.
pub open spec fn prefix_value(st: Option<&StaticIpamConfig>) -> Seq<char> {
    match st {
        Some(s) => int_dec(s.prefix as int),
        None => Seq::empty(),
    }
}

/// `${GATEWAY}`: the static `gateway`, or empty.
pub open spec fn gateway_value(st: Option<&StaticIpamConfig>) -> Seq<char> {
    match st {
        Some(s) => opt_view(s.gateway),
        None => Seq::empty(),
    }
}

/// `${DNS}`: the static `nameservers` joined by `,`, or empty.
pub open spec fn dns_value(st: Option<&StaticIpamConfig>) -> Seq<char> {
    match st {
        Some(s) => join(strings_view(s.nameservers@), seq![',']),
        None => Seq::empty(),
    }
}

/// `<vm-name>.<domain>`; `<vm-name>.` when the domain is empty; `vm_name`
/// itself when it already ends in `.<domain>` (ASCII case-insensitively).
pub open spec fn fqdn_of(vm_name: Seq<char>, domain: Seq<char>) -> Seq<char> {
    if domain.len() == 0 {
        vm_name.push('.')
    } else if ends_with(lower_seq(vm_name), seq!['.'] + lower_seq(domain)) {
        vm_name
    } else {
        vm_name + seq!['.'] + domain
    }
}

/// The fixed placeholder set, substituted in this order.
pub open spec fn rendered(raw: Seq<char>, ctx: GuestDataContext) -> Seq<char> {
    let st = ctx.static_;
    let s1 = replace_all(raw, "${VM_NAME}"@, ctx.vm_name@);
    let s2 = replace_all(s1, "${FQDN}"@, fqdn_of(ctx.vm_name@, domain_value(st)));
    let s3 = replace_all(s2, "${IP}"@, address_value(st));
    let s4 = replace_all(s3, "${PREFIX}"@, prefix_value(st));
    let s5 = replace_all(s4, "${GATEWAY}"@, gateway_value(st));
    let s6 = replace_all(s5, "${DNS}"@, dns_value(st));
    replace_all(s6, "${DOMAIN}"@, domain_value(st))
}

fn opt_or_empty(o: &Option<String>) -> (r: String)
    ensures
        r@ == opt_view(*o),
{
    match o {
        Some(s) => s.clone(),
        None => String::new(),
    }
}

/// Combine `vm_name` and `domain` into an FQDN without appending the domain a
/// second time when `vm_name` is already qualified with it.
pub fn fqdn(vm_name: &str, domain: &str) -> (r: String)
    ensures
        r@ == fqdn_of(vm_name@, domain@),
{
    if domain.is_empty() {
        let mut r = owned(vm_name);
        push_char(&mut r, '.');
        return r;
    }
    let mut suffix = String::new();
    push_char(&mut suffix, '.');
    let lowered_domain = to_lower(domain);
    suffix.append(lowered_domain.as_str());
    let lowered_name = to_lower(vm_name);
    proof {
        assert(suffix@ =~= seq!['.'] + lower_seq(domain@));
    }
    if has_suffix(lowered_name.as_str(), suffix.as_str()) {
        owned(vm_name)
    } else {
        let mut r = owned(vm_name);
        push_char(&mut r, '.');
        r.append(domain);
        proof {
            assert(r@ =~= vm_name@ + seq!['.'] + domain@);
        }
        r
    }
}

/// Substitute the fixed placeholder set into `raw`: `${VM_NAME}`, `${FQDN}`,
/// `${IP}`, `${PREFIX}`, `${GATEWAY}`, `${DNS}` (comma-joined), `${DOMAIN}`.
/// Network values are empty without a static override. Any other `${...}` is
/// left untouched.
pub fn render_placeholders(raw: &str, ctx: &GuestDataContext) -> (r: String)
    ensures
        r@ == rendered(raw@, *ctx),
{
    let (domain, address, prefix, gateway, dns) = match ctx.static_ {
        Some(s) => (
            opt_or_empty(&s.domain),
            s.address.clone(),
            int_to_string(s.prefix as i64),
            opt_or_empty(&s.gateway),
            join_strings(&s.nameservers, ","),
        ),
        None => (String::new(), String::new(), String::new(), String::new(), String::new()),
    };
    proof {
        reveal_strlit(",");
        reveal_strlit("${VM_NAME}");
        reveal_strlit("${FQDN}");
        reveal_strlit("${IP}");
        reveal_strlit("${PREFIX}");
        reveal_strlit("${GATEWAY}");
        reveal_strlit("${DNS}");
        reveal_strlit("${DOMAIN}");
        assert(","@ =~= seq![',']);
    }
    let full = fqdn(ctx.vm_name, domain.as_str());
    let s1 = replace(raw, "${VM_NAME}", ctx.vm_name);
    let s2 = replace(s1.as_str(), "${FQDN}", full.as_str());
    let s3 = replace(s2.as_str(), "${IP}", address.as_str());
    let s4 = replace(s3.as_str(), "${PREFIX}", prefix.as_str());
    let s5 = replace(s4.as_str(), "${GATEWAY}", gateway.as_str());
    let s6 = replace(s5.as_str(), "${DNS}", dns.as_str());
    replace(s6.as_str(), "${DOMAIN}", domain.as_str())
}

} // verus!

verus! {

/// A cloud-config holding none of the seven placeholders comes back unchanged.
pub proof fn lemma_render_without_placeholders(raw: Seq<char>, ctx: GuestDataContext)
    requires
        !crate::text::contains_seq(raw, "${VM_NAME}"@),
        !crate::text::contains_seq(raw, "${FQDN}"@),
        !crate::text::contains_seq(raw, "${IP}"@),
        !crate::text::contains_seq(raw, "${PREFIX}"@),
        !crate::text::contains_seq(raw, "${GATEWAY}"@),
        !crate::text::contains_seq(raw, "${DNS}"@),
        !crate::text::contains_seq(raw, "${DOMAIN}"@),
    ensures
        rendered(raw, ctx) == raw,
{
    reveal_strlit("${VM_NAME}");
    reveal_strlit("${FQDN}");
    reveal_strlit("${IP}");
    reveal_strlit("${PREFIX}");
    reveal_strlit("${GATEWAY}");
    reveal_strlit("${DNS}");
    reveal_strlit("${DOMAIN}");
    let st = ctx.static_;
    crate::text::lemma_replace_absent(raw, "${VM_NAME}"@, ctx.vm_name@);
    crate::text::lemma_replace_absent(raw, "${FQDN}"@, fqdn_of(ctx.vm_name@, domain_value(st)));
    crate::text::lemma_replace_absent(raw, "${IP}"@, address_value(st));
    crate::text::lemma_replace_absent(raw, "${PREFIX}"@, prefix_value(st));
    crate::text::lemma_replace_absent(raw, "${GATEWAY}"@, gateway_value(st));
    crate::text::lemma_replace_absent(raw, "${DNS}"@, dns_value(st));
    crate::text::lemma_replace_absent(raw, "${DOMAIN}"@, domain_value(st));
}

proof fn lemma_lower_seq_concat(a: Seq<char>, b: Seq<char>)
    ensures
        lower_seq(a + b) == lower_seq(a) + lower_seq(b),
{
    assert(lower_seq(a + b) =~= lower_seq(a) + lower_seq(b));
}

/// Qualifying a name twice with the same non-empty domain is the same as
/// qualifying it once: the domain is never appended a second time.
pub proof fn lemma_fqdn_idempotent(vm_name: Seq<char>, domain: Seq<char>)
    requires
        domain.len() > 0,
    ensures
        fqdn_of(fqdn_of(vm_name, domain), domain) == fqdn_of(vm_name, domain),
{
    let suffix = seq!['.'] + lower_seq(domain);
    if !ends_with(lower_seq(vm_name), suffix) {
        let q = vm_name + seq!['.'] + domain;
        lemma_lower_seq_concat(vm_name + seq!['.'], domain);
        lemma_lower_seq_concat(vm_name, seq!['.']);
        assert(lower_seq(seq!['.']) =~= seq!['.']);
        let lq = lower_seq(q);
        assert(lq =~= lower_seq(vm_name) + suffix);
        assert(lq.skip(lq.len() - suffix.len()) =~= suffix);
    }
}

} // verus!
