//! The digital-output relay's resolution and batching logic: VDCP port
//! numbers become (module, pin) pairs, pins are grouped by destination
//! module, and each module gets exactly one pulse request per batch. The
//! relay loop itself (the trigger channel receive, the coalescing sleep, and
//! the concurrent HTTP dispatch) lives outside the library and hands in
//! plain values.

use vstd::prelude::*;

verus! {

/// One digital output: which module it sits on and which pin fires.
#[derive(Clone, Copy, Debug, PartialEq, Eq, Structural)]
pub struct AdamCommand {
    pub adam_module: u8,
    pub digital_output_number: u8,
}

impl AdamCommand {
    pub fn new(adam_module: u8, digital_output_number: u8) -> (r: Self)
        ensures
            r == (AdamCommand { adam_module, digital_output_number }),
    {
        Self { adam_module, digital_output_number }
    }
}

/// An IPv4 address as its four octets.
#[derive(Clone, Copy, Debug, PartialEq, Eq)]
pub struct Ipv4 {
    pub octets: [u8; 4],
}

/// VDCP port number to the output that fires when that port plays.
pub type CommandMapping = Vec<(u8, AdamCommand)>;

/// Module id to the module's IPv4 address.
pub type AdamIps = Vec<(u8, Ipv4)>;

/// What a dispatched request does; a pulse is an "on" form followed, after
/// a short fixed delay, by the complementary "off" form.
#[derive(Clone, Copy, Debug, PartialEq, Eq, Structural)]
pub enum RequestType {
    Pulse,
}

/// The first value an association list holds for a key.
pub open spec fn assoc_lookup<V>(entries: Seq<(u8, V)>, key: u8) -> Option<V>
    decreases entries.len(),
{
    if entries.len() == 0 {
        None
    } else if entries[0].0 == key {
        Some(entries[0].1)
    } else {
        assoc_lookup(entries.drop_first(), key)
    }
}

/// Looking a key up in an association list whose first `i` entries do not
/// hold it looks it up in the rest of the list.
proof fn lemma_assoc_skip<V>(entries: Seq<(u8, V)>, key: u8, i: int)
    requires
        0 <= i <= entries.len(),
        forall|j: int| 0 <= j < i ==> (#[trigger] entries[j]).0 != key,
    ensures
        assoc_lookup(entries, key) == assoc_lookup(entries.skip(i), key),
    decreases i,
{
    if i > 0 {
        lemma_assoc_skip(entries.drop_first(), key, i - 1);
        assert(entries.drop_first().skip(i - 1) =~= entries.skip(i));
    } else {
        assert(entries.skip(0) =~= entries);
    }
}

/// The output mapped to a VDCP port, if the mapping knows the port.
pub fn lookup_mapping(mapping: &CommandMapping, port: u8) -> (r: Option<AdamCommand>)
    ensures
        r == assoc_lookup(mapping@, port),
{
    let mut i: usize = 0;
    while i < mapping.len()
        invariant
            0 <= i <= mapping@.len(),
            forall|j: int| 0 <= j < i ==> (#[trigger] mapping@[j]).0 != port,
        decreases mapping@.len() - i,
    {
        if mapping[i].0 == port {
            proof {
                lemma_assoc_skip(mapping@, port, i as int);
                assert(mapping@.skip(i as int)[0] == mapping@[i as int]);
            }
            return Some(mapping[i].1);
        }
        i = i + 1;
    }
    proof {
        lemma_assoc_skip(mapping@, port, mapping@.len() as int);
        assert(mapping@.skip(mapping@.len() as int) =~= Seq::<(u8, AdamCommand)>::empty());
    }
    None
}

/// The address of a module, if the table knows the module.
pub fn lookup_ip(unit_ips: &AdamIps, module: u8) -> (r: Option<Ipv4>)
    ensures
        r == assoc_lookup(unit_ips@, module),
{
    let mut i: usize = 0;
    while i < unit_ips.len()
        invariant
            0 <= i <= unit_ips@.len(),
            forall|j: int| 0 <= j < i ==> (#[trigger] unit_ips@[j]).0 != module,
        decreases unit_ips@.len() - i,
    {
        if unit_ips[i].0 == module {
            proof {
                lemma_assoc_skip(unit_ips@, module, i as int);
                assert(unit_ips@.skip(i as int)[0] == unit_ips@[i as int]);
            }
            return Some(unit_ips[i].1);
        }
        i = i + 1;
    }
    proof {
        lemma_assoc_skip(unit_ips@, module, unit_ips@.len() as int);
        assert(unit_ips@.skip(unit_ips@.len() as int) =~= Seq::<(u8, Ipv4)>::empty());
    }
    None
}

/// The modules the mapping points at that the address table does not know,
/// in mapping order; such outputs can never fire.
pub open spec fn missing_modules(mapping: Seq<(u8, AdamCommand)>, ips: Seq<(u8, Ipv4)>) -> Seq<u8>
    decreases mapping.len(),
{
    if mapping.len() == 0 {
        Seq::empty()
    } else {
        missing_modules(mapping.drop_last(), ips) + (
        if assoc_lookup(ips, mapping.last().1.adam_module) is None {
            seq![mapping.last().1.adam_module]
        } else {
            Seq::empty()
        })
    }
}

/// Reports the config errors the relay can see at construction: every
/// mapped port whose module has no address listed. The caller logs them;
/// startup goes on regardless.
pub fn check_for_config_errors(port_mapping: &CommandMapping, unit_ips: &AdamIps) -> (r: Vec<u8>)
    ensures
        r@ == missing_modules(port_mapping@, unit_ips@),
{
    let mut bad: Vec<u8> = Vec::new();
    let mut i: usize = 0;
    while i < port_mapping.len()
        invariant
            0 <= i <= port_mapping@.len(),
            bad@ == missing_modules(port_mapping@.take(i as int), unit_ips@),
        decreases port_mapping@.len() - i,
    {
        proof {
            assert(port_mapping@.take(i + 1).drop_last() =~= port_mapping@.take(i as int));
        }
        let module = port_mapping[i].1.adam_module;
        if lookup_ip(unit_ips, module).is_none() {
            bad.push(module);
        }
        i = i + 1;
    }
    proof {
        assert(port_mapping@.take(port_mapping@.len() as int) =~= port_mapping@);
    }
    bad
}

/// The decimal digits of a byte, as ASCII, without leading zeros.
pub open spec fn dec_u8(n: u8) -> Seq<u8> {
    if n < 10 {
        seq![(0x30 + n) as u8]
    } else if n < 100 {
        seq![(0x30 + n / 10) as u8, (0x30 + n % 10) as u8]
    } else {
        seq![(0x30 + n / 100) as u8, (0x30 + (n / 10) % 10) as u8, (0x30 + n % 10) as u8]
    }
}

/// Renders a byte as decimal ASCII digits.
pub fn dec_bytes(n: u8) -> (r: Vec<u8>)
    ensures
        r@ == dec_u8(n),
{
    if n < 10 {
        let v: Vec<u8> = vec![0x30 + n];
        proof {
            assert(v@ == dec_u8(n));
        }
        v
    } else if n < 100 {
        let v: Vec<u8> = vec![0x30 + n / 10, 0x30 + n % 10];
        proof {
            assert(v@ == dec_u8(n));
        }
        v
    } else {
        let v: Vec<u8> = vec![0x30 + n / 100, 0x30 + (n / 10) % 10, 0x30 + n % 10];
        proof {
            assert(v@ == dec_u8(n));
        }
        v
    }
}

/// The scheme prefix of a module endpoint.
pub open spec fn url_scheme() -> Seq<u8> {
    seq![0x68u8, 0x74, 0x74, 0x70, 0x3a, 0x2f, 0x2f]
}

/// The path of the endpoint that sets all digital outputs on a module.
pub open spec fn url_path() -> Seq<u8> {
    seq![
        0x2fu8, 0x64, 0x69, 0x67, 0x69, 0x74, 0x61, 0x6c, 0x6f, 0x75, 0x74, 0x70, 0x75, 0x74,
        0x2f, 0x61, 0x6c, 0x6c,
        0x2f, 0x76, 0x61, 0x6c, 0x75, 0x65,
    ]
}

/// The endpoint that sets all digital outputs on a module:
/// `http://<ip>/digitaloutput/all/value`.
pub open spec fn url_bytes(ip: Ipv4) -> Seq<u8> {
    url_scheme() + dec_u8(ip.octets@[0]) + seq![0x2eu8] + dec_u8(ip.octets@[1]) + seq![0x2eu8]
        + dec_u8(ip.octets@[2]) + seq![0x2eu8] + dec_u8(ip.octets@[3]) + url_path()
}

/// Renders a module's endpoint address.
pub fn url_for(ip: &Ipv4) -> (r: Vec<u8>)
    ensures
        r@ == url_bytes(*ip),
{
    let mut out: Vec<u8> = vec![0x68, 0x74, 0x74, 0x70, 0x3a, 0x2f, 0x2f];
    proof {
        assert(out@ == url_scheme());
    }
    let mut part = dec_bytes(ip.octets[0]);
    out.append(&mut part);
    out.push(0x2e);
    let mut part = dec_bytes(ip.octets[1]);
    out.append(&mut part);
    out.push(0x2e);
    let mut part = dec_bytes(ip.octets[2]);
    out.append(&mut part);
    out.push(0x2e);
    let mut part = dec_bytes(ip.octets[3]);
    out.append(&mut part);
    let mut path: Vec<u8> = vec![
        0x2f, 0x64, 0x69, 0x67, 0x69, 0x74, 0x61, 0x6c, 0x6f, 0x75, 0x74, 0x70, 0x75, 0x74,
        0x2f, 0x61, 0x6c, 0x6c,
        0x2f, 0x76, 0x61, 0x6c, 0x75, 0x65,
    ];
    proof {
        assert(path@ == url_path());
    }
    out.append(&mut path);
    proof {
        assert(out@ =~= url_bytes(*ip));
    }
    out
}

/// A byte placed into a sorted sequence, after every element it is not
/// smaller than.
pub open spec fn insert_sorted(s: Seq<u8>, x: u8) -> Seq<u8>
    decreases s.len(),
{
    if s.len() == 0 {
        seq![x]
    } else if s.last() <= x {
        s.push(x)
    } else {
        insert_sorted(s.drop_last(), x).push(s.last())
    }
}

/// A byte sequence sorted ascending, by repeated insertion.
pub open spec fn sort_seq(s: Seq<u8>) -> Seq<u8>
    decreases s.len(),
{
    if s.len() == 0 {
        Seq::empty()
    } else {
        insert_sorted(sort_seq(s.drop_last()), s.last())
    }
}

/// Inserting at the first position from the right whose predecessor is not
/// larger is what `insert_sorted` describes.
proof fn lemma_insert_sorted_at(s: Seq<u8>, x: u8, k: int)
    requires
        0 <= k <= s.len(),
        forall|j: int| k <= j < s.len() ==> s[j] > x,
        k > 0 ==> s[k - 1] <= x,
    ensures
        insert_sorted(s, x) == s.insert(k, x),
    decreases s.len(),
{
    if k == s.len() {
        assert(insert_sorted(s, x) =~= s.insert(k, x));
    } else {
        lemma_insert_sorted_at(s.drop_last(), x, k);
        assert(insert_sorted(s, x) =~= s.insert(k, x));
    }
}

/// Inserts a byte into a sorted vector, keeping it sorted.
fn insert_ordered(out: &mut Vec<u8>, x: u8)
    ensures
        final(out)@ == insert_sorted(old(out)@, x),
{
    let mut k: usize = out.len();
    while k > 0 && out[k - 1] > x
        invariant
            0 <= k <= out@.len(),
            *out == *old(out),
            forall|j: int| k <= j < out@.len() ==> out@[j] > x,
        decreases k,
    {
        k = k - 1;
    }
    proof {
        lemma_insert_sorted_at(out@, x, k as int);
    }
    out.insert(k, x);
}

/// Sorts the batch of port numbers ascending, so that a module's pins come
/// out in port order.
pub fn sort_bytes(v: &Vec<u8>) -> (r: Vec<u8>)
    ensures
        r@ == sort_seq(v@),
{
    let mut out: Vec<u8> = Vec::new();
    let mut i: usize = 0;
    while i < v.len()
        invariant
            0 <= i <= v@.len(),
            out@ == sort_seq(v@.take(i as int)),
        decreases v@.len() - i,
    {
        proof {
            assert(v@.take(i + 1).drop_last() =~= v@.take(i as int));
        }
        insert_ordered(&mut out, v[i]);
        i = i + 1;
    }
    proof {
        assert(v@.take(v@.len() as int) =~= v@);
    }
    out
}

/// The outputs a batch of ports resolves to, in batch order; a port the
/// mapping does not know is dropped (and reported by the caller's log).
pub open spec fn resolve_ports(ports: Seq<u8>, mapping: Seq<(u8, AdamCommand)>) -> Seq<AdamCommand>
    decreases ports.len(),
{
    if ports.len() == 0 {
        Seq::empty()
    } else {
        resolve_ports(ports.drop_last(), mapping) + (match assoc_lookup(mapping, ports.last()) {
            Some(c) => seq![c],
            None => Seq::empty(),
        })
    }
}

/// Resolves each port of a batch through the mapping, keeping batch order
/// and dropping unknown ports.
pub fn resolve(ports: &Vec<u8>, mapping: &CommandMapping) -> (r: Vec<AdamCommand>)
    ensures
        r@ == resolve_ports(ports@, mapping@),
{
    let mut out: Vec<AdamCommand> = Vec::new();
    let mut i: usize = 0;
    while i < ports.len()
        invariant
            0 <= i <= ports@.len(),
            out@ == resolve_ports(ports@.take(i as int), mapping@),
        decreases ports@.len() - i,
    {
        proof {
            assert(ports@.take(i + 1).drop_last() =~= ports@.take(i as int));
        }
        match lookup_mapping(mapping, ports[i]) {
            Some(c) => {
                out.push(c);
                proof {
                    assert(out@ =~= resolve_ports(ports@.take(i + 1), mapping@));
                }
            },
            None => {
                proof {
                    assert(out@ =~= resolve_ports(ports@.take(i + 1), mapping@));
                }
            },
        }
        i = i + 1;
    }
    proof {
        assert(ports@.take(ports@.len() as int) =~= ports@);
    }
    out
}

/// The modules a batch of outputs touches, each once, in order of first
/// appearance.
pub open spec fn distinct_modules(cmds: Seq<AdamCommand>) -> Seq<u8>
    decreases cmds.len(),
{
    if cmds.len() == 0 {
        Seq::empty()
    } else {
        let d = distinct_modules(cmds.drop_last());
        if d.contains(cmds.last().adam_module) {
            d
        } else {
            d.push(cmds.last().adam_module)
        }
    }
}

/// The pins of a batch that sit on one module, in batch order.
pub open spec fn pins_for(cmds: Seq<AdamCommand>, module: u8) -> Seq<u8>
    decreases cmds.len(),
{
    if cmds.len() == 0 {
        Seq::empty()
    } else {
        let p = pins_for(cmds.drop_last(), module);
        if cmds.last().adam_module == module {
            p.push(cmds.last().digital_output_number)
        } else {
            p
        }
    }
}

/// Whether a byte occurs in a vector.
fn contains_byte(v: &Vec<u8>, x: u8) -> (r: bool)
    ensures
        r == v@.contains(x),
{
    let mut i: usize = 0;
    while i < v.len()
        invariant
            0 <= i <= v@.len(),
            forall|j: int| 0 <= j < i ==> v@[j] != x,
        decreases v@.len() - i,
    {
        if v[i] == x {
            return true;
        }
        i = i + 1;
    }
    false
}

/// Groups a batch of outputs by destination module: one entry per module,
/// in order of first appearance, carrying that module's pins in batch
/// order. Each module thus gets exactly one request per batch, however many
/// ports fired at it.
pub fn group_by_module(cmds: &Vec<AdamCommand>) -> (r: Vec<(u8, Vec<u8>)>)
    ensures
        r@.len() == distinct_modules(cmds@).len(),
        forall|i: int| 0 <= i < r@.len() ==> (#[trigger] r@[i]).0 == distinct_modules(cmds@)[i],
        forall|i: int| 0 <= i < r@.len() ==> (#[trigger] r@[i]).1@ == pins_for(
            cmds@,
            distinct_modules(cmds@)[i],
        ),
{
    let mut modules: Vec<u8> = Vec::new();
    let mut i: usize = 0;
    while i < cmds.len()
        invariant
            0 <= i <= cmds@.len(),
            modules@ == distinct_modules(cmds@.take(i as int)),
        decreases cmds@.len() - i,
    {
        proof {
            assert(cmds@.take(i + 1).drop_last() =~= cmds@.take(i as int));
        }
        let m = cmds[i].adam_module;
        if !contains_byte(&modules, m) {
            modules.push(m);
        }
        i = i + 1;
    }
    proof {
        assert(cmds@.take(cmds@.len() as int) =~= cmds@);
    }
    let mut out: Vec<(u8, Vec<u8>)> = Vec::new();
    let mut g: usize = 0;
    while g < modules.len()
        invariant
            0 <= g <= modules@.len(),
            modules@ == distinct_modules(cmds@),
            out@.len() == g,
            forall|i: int| 0 <= i < g ==> (#[trigger] out@[i]).0 == modules@[i],
            forall|i: int| 0 <= i < g ==> (#[trigger] out@[i]).1@ == pins_for(cmds@, modules@[i]),
        decreases modules@.len() - g,
    {
        let m = modules[g];
        let mut pins: Vec<u8> = Vec::new();
        let mut i: usize = 0;
        while i < cmds.len()
            invariant
                0 <= i <= cmds@.len(),
                pins@ == pins_for(cmds@.take(i as int), m),
            decreases cmds@.len() - i,
        {
            proof {
                assert(cmds@.take(i + 1).drop_last() =~= cmds@.take(i as int));
            }
            if cmds[i].adam_module == m {
                pins.push(cmds[i].digital_output_number);
            }
            i = i + 1;
        }
        proof {
            assert(cmds@.take(cmds@.len() as int) =~= cmds@);
        }
        out.push((m, pins));
        g = g + 1;
    }
    out
}

/// One form entry of a pulse's "on" request: `DO<pin>=1`.
pub open spec fn form_entry(pin: u8) -> (Seq<u8>, Seq<u8>) {
    (seq![0x44u8, 0x4f] + dec_u8(pin), seq![0x31u8])
}

/// The form of a pulse's "on" request: one `DO<pin>=1` entry per pin.
pub open spec fn form_of(pins: Seq<u8>) -> Seq<(Seq<u8>, Seq<u8>)> {
    pins.map_values(|p: u8| form_entry(p))
}

/// The mathematical contents of an executable form.
pub open spec fn form_view(form: Seq<(Vec<u8>, Vec<u8>)>) -> Seq<(Seq<u8>, Seq<u8>)> {
    form.map_values(|e: (Vec<u8>, Vec<u8>)| (e.0@, e.1@))
}

/// The mathematical contents of one executable request.
pub open spec fn request_view(r: (RequestType, Vec<u8>, Vec<(Vec<u8>, Vec<u8>)>)) -> (
    RequestType,
    Seq<u8>,
    Seq<(Seq<u8>, Seq<u8>)>,
) {
    (r.0, r.1@, form_view(r.2@))
}

/// The mathematical contents of an executable request batch.
pub open spec fn requests_view(rs: Seq<(RequestType, Vec<u8>, Vec<(Vec<u8>, Vec<u8>)>)>) -> Seq<
    (RequestType, Seq<u8>, Seq<(Seq<u8>, Seq<u8>)>),
> {
    rs.map_values(|r: (RequestType, Vec<u8>, Vec<(Vec<u8>, Vec<u8>)>)| request_view(r))
}

/// Builds the single pulse request for one module: its endpoint address and
/// one `DO<pin>=1` form entry per pin.
pub fn create_post(ip: &Ipv4, pins: &Vec<u8>) -> (r: (RequestType, Vec<u8>, Vec<(Vec<u8>, Vec<
    u8,
>)>))
    ensures
        request_view(r) == (RequestType::Pulse, url_bytes(*ip), form_of(pins@)),
{
    let address = url_for(ip);
    let mut body: Vec<(Vec<u8>, Vec<u8>)> = Vec::new();
    let mut i: usize = 0;
    while i < pins.len()
        invariant
            0 <= i <= pins@.len(),
            form_view(body@) == form_of(pins@.take(i as int)),
        decreases pins@.len() - i,
    {
        proof {
            assert(form_view(body@).len() == form_of(pins@.take(i as int)).len());
            assert(body@.len() == i);
        }
        let mut key: Vec<u8> = vec![0x44, 0x4f];
        proof {
            assert(key@ == seq![0x44u8, 0x4f]);
        }
        let mut digits = dec_bytes(pins[i]);
        key.append(&mut digits);
        let value: Vec<u8> = vec![0x31];
        proof {
            assert(value@ == seq![0x31u8]);
        }
        let ghost prev = body@;
        body.push((key, value));
        proof {
            assert(form_view(body@)[i as int] == (key@, value@));
            assert(key@ == seq![0x44u8, 0x4f] + dec_u8(pins@[i as int]));
            assert(form_of(pins@.take(i + 1))[i as int] == form_entry(pins@[i as int]));
            assert(form_view(body@)[i as int] == form_of(pins@.take(i + 1))[i as int]);
            assert(forall|j: int| 0 <= j < i ==> #[trigger] form_view(body@)[j] == form_view(
                prev,
            )[j]);
            assert(forall|j: int| 0 <= j < i ==> #[trigger] form_of(pins@.take(i + 1))[j]
                == form_of(pins@.take(i as int))[j]);
            assert(form_view(body@) =~= form_of(pins@.take(i + 1)));
        }
        i = i + 1;
    }
    proof {
        assert(pins@.take(pins@.len() as int) =~= pins@);
    }
    (RequestType::Pulse, address, body)
}

/// The request batch for a group list: one pulse request per module the
/// address table knows, in group order; a module without an address is
/// dropped (and reported by the caller's log).
pub open spec fn requests_of(groups: Seq<(u8, Seq<u8>)>, ips: Seq<(u8, Ipv4)>) -> Seq<
    (RequestType, Seq<u8>, Seq<(Seq<u8>, Seq<u8>)>),
>
    decreases groups.len(),
{
    if groups.len() == 0 {
        Seq::empty()
    } else {
        requests_of(groups.drop_last(), ips) + (match assoc_lookup(ips, groups.last().0) {
            Some(ip) => seq![(RequestType::Pulse, url_bytes(ip), form_of(groups.last().1))],
            None => Seq::empty(),
        })
    }
}

/// The whole batching step, from trigger batch to requests: sort the ports,
/// resolve each through the mapping (unknown ports drop out), group the
/// resolved pins by module, and build one pulse request per module with a
/// known address.
pub open spec fn spec_make_commands(
    ports: Seq<u8>,
    mapping: Seq<(u8, AdamCommand)>,
    ips: Seq<(u8, Ipv4)>,
) -> Seq<(RequestType, Seq<u8>, Seq<(Seq<u8>, Seq<u8>)>)> {
    let cmds = resolve_ports(sort_seq(ports), mapping);
    let mods = distinct_modules(cmds);
    requests_of(mods.map_values(|m: u8| (m, pins_for(cmds, m))), ips)
}

/// Turns one coalesced batch of play triggers into the pulse requests to
/// dispatch: one request per distinct destination module, carrying all of
/// that module's pins; ports without a mapping and modules without an
/// address are dropped.
pub fn make_commands(ports_to_play: Vec<u8>, mapping: &CommandMapping, unit_ips: &AdamIps) -> (r:
    Vec<(RequestType, Vec<u8>, Vec<(Vec<u8>, Vec<u8>)>)>)
    ensures
        requests_view(r@) == spec_make_commands(ports_to_play@, mapping@, unit_ips@),
{
    let sorted = sort_bytes(&ports_to_play);
    let cmds = resolve(&sorted, mapping);
    let groups = group_by_module(&cmds);
    let ghost spec_groups = distinct_modules(cmds@).map_values(
        |m: u8| (m, pins_for(cmds@, m)),
    );
    proof {
        assert(groups@.map_values(|gr: (u8, Vec<u8>)| (gr.0, gr.1@)) =~= spec_groups);
    }
    let mut out: Vec<(RequestType, Vec<u8>, Vec<(Vec<u8>, Vec<u8>)>)> = Vec::new();
    let mut g: usize = 0;
    while g < groups.len()
        invariant
            0 <= g <= groups@.len(),
            spec_groups == distinct_modules(cmds@).map_values(|m: u8| (m, pins_for(cmds@, m))),
            groups@.map_values(|gr: (u8, Vec<u8>)| (gr.0, gr.1@)) =~= spec_groups,
            requests_view(out@) == requests_of(spec_groups.take(g as int), unit_ips@),
        decreases groups@.len() - g,
    {
        proof {
            assert(spec_groups.take(g + 1).drop_last() =~= spec_groups.take(g as int));
        }
        let module = groups[g].0;
        match lookup_ip(unit_ips, module) {
            Some(ip) => {
                let req = create_post(&ip, &groups[g].1);
                out.push(req);
                proof {
                    assert(requests_view(out@) =~= requests_of(spec_groups.take(g + 1), unit_ips@));
                }
            },
            None => {
                proof {
                    assert(requests_view(out@) =~= requests_of(spec_groups.take(g + 1), unit_ips@));
                }
            },
        }
        g = g + 1;
    }
    proof {
        assert(spec_groups.take(spec_groups.len() as int) =~= spec_groups);
    }
    out
}

/// A form value flipped for the "off" half of a pulse: a one becomes a
/// zero and a zero a one; anything else is left as it stands (the caller
/// reports it and resends the form unmodified rather than inventing a
/// flip).
pub open spec fn flip_value(v: Seq<u8>) -> Seq<u8> {
    if v == seq![0x31u8] {
        seq![0x30u8]
    } else if v == seq![0x30u8] {
        seq![0x31u8]
    } else {
        v
    }
}

/// A whole form flipped for the "off" half of a pulse, entry by entry.
pub open spec fn flip_form_spec(form: Seq<(Seq<u8>, Seq<u8>)>) -> Seq<(Seq<u8>, Seq<u8>)> {
    form.map_values(|e: (Seq<u8>, Seq<u8>)| (e.0, flip_value(e.1)))
}

/// Builds the "off" form of a pulse: each value flipped between one and
/// zero, keys untouched; a value that is neither stays as it is.
pub fn flip_form(form: &Vec<(Vec<u8>, Vec<u8>)>) -> (r: Vec<(Vec<u8>, Vec<u8>)>)
    ensures
        form_view(r@) == flip_form_spec(form_view(form@)),
{
    let mut out: Vec<(Vec<u8>, Vec<u8>)> = Vec::new();
    let mut i: usize = 0;
    while i < form.len()
        invariant
            0 <= i <= form@.len(),
            form_view(out@) == flip_form_spec(form_view(form@.take(i as int))),
        decreases form@.len() - i,
    {
        proof {
            assert(form_view(out@).len() == flip_form_spec(
                form_view(form@.take(i as int)),
            ).len());
            assert(out@.len() == i);
        }
        let key = form[i].0.clone();
        proof {
            assert(key@ =~= form@[i as int].0@);
        }
        let v = &form[i].1;
        let flipped: Vec<u8> = if v.len() == 1 && v[0] == 0x31 {
            let nv: Vec<u8> = vec![0x30];
            proof {
                assert(nv@ == seq![0x30u8]);
                assert(v@ =~= seq![0x31u8]);
            }
            nv
        } else if v.len() == 1 && v[0] == 0x30 {
            let nv: Vec<u8> = vec![0x31];
            proof {
                assert(nv@ == seq![0x31u8]);
                assert(v@ =~= seq![0x30u8]);
            }
            nv
        } else {
            let nv = v.clone();
            proof {
                assert(nv@ =~= v@);
                assert(v@ != seq![0x31u8] && v@ != seq![0x30u8]);
            }
            nv
        };
        let ghost prev = out@;
        let ghost fl = flipped@;
        out.push((key, flipped));
        proof {
            assert(form_view(out@)[i as int] == (key@, fl));
            assert(form_view(form@.take(i + 1))[i as int] == (
                form@[i as int].0@,
                form@[i as int].1@,
            ));
            assert(flip_form_spec(form_view(form@.take(i + 1)))[i as int] == (
                form@[i as int].0@,
                flip_value(form@[i as int].1@),
            ));
            assert(form_view(out@)[i as int] == flip_form_spec(
                form_view(form@.take(i + 1)),
            )[i as int]);
            assert(forall|j: int| 0 <= j < i ==> #[trigger] form_view(out@)[j] == form_view(
                prev,
            )[j]);
            assert(forall|j: int| 0 <= j < i ==> #[trigger] form_view(form@.take(i + 1))[j]
                == form_view(form@.take(i as int))[j]);
            assert(forall|j: int| 0 <= j < i ==> #[trigger] flip_form_spec(
                form_view(form@.take(i + 1)),
            )[j] == flip_form_spec(form_view(form@.take(i as int)))[j]);
            assert(form_view(out@) =~= flip_form_spec(form_view(form@.take(i + 1))));
        }
        i = i + 1;
    }
    proof {
        assert(form@.take(form@.len() as int) =~= form@);
    }
    out
}

} // verus!
