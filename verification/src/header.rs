//! The header filter: which headers cross the proxy in each direction.

use vstd::prelude::*;

verus! {

/// One header line. Names and values are kept as the bytes on the wire.
#[derive(Debug, Clone)]
pub struct Header {
    pub name: Vec<u8>,
    pub value: Vec<u8>,
}

/// A header line as a pair of byte sequences.
pub ghost struct HeaderView {
    pub name: Seq<u8>,
    pub value: Seq<u8>,
}

impl View for Header {
    type V = HeaderView;

    open spec fn view(&self) -> HeaderView {
        HeaderView { name: self.name@, value: self.value@ }
    }
}

/// The views of a list of headers, in order.
pub open spec fn views(headers: Seq<Header>) -> Seq<HeaderView> {
    headers.map_values(|h: Header| h@)
}

/// The leg of the proxy that a header list is about to cross.
#[derive(Debug, Clone, Copy, PartialEq, Eq, Structural)]
pub enum Direction {
    /// From the caller to the upstream.
    Request,
    /// From the upstream back to the caller.
    Response,
}

/// `b` with an ASCII capital letter turned into its small letter.
pub open spec fn ascii_lower(b: u8) -> u8 {
    if 65 <= b <= 90 {
        (b + 32) as u8
    } else {
        b
    }
}

/// Two header names are the same name: equal up to ASCII letter case.
pub open spec fn same_name(a: Seq<u8>, b: Seq<u8>) -> bool {
    &&& a.len() == b.len()
    &&& forall|i: int| 0 <= i < a.len() ==> ascii_lower(#[trigger] a[i]) == ascii_lower(b[i])
}

/// The bytes of `host`.
pub open spec fn host_name() -> Seq<u8> {
    seq![104u8, 111, 115, 116]
}

/// The name is `Host`, in any letter case.
pub open spec fn is_host(name: Seq<u8>) -> bool {
    same_name(name, host_name())
}

/// The names of the hop-by-hop headers, in small letters: `connection`,
/// `keep-alive`, `proxy-authenticate`, `proxy-authorization`, `te`,
/// `trailer`, `transfer-encoding` and `upgrade`.
pub open spec fn hop_by_hop_names() -> Seq<Seq<u8>> {
    seq![
        seq![99u8, 111, 110, 110, 101, 99, 116, 105, 111, 110],
        seq![107u8, 101, 101, 112, 45, 97, 108, 105, 118, 101],
        seq![
            112u8, 114, 111, 120, 121, 45, 97, 117, 116, 104, 101, 110, 116, 105, 99, 97, 116, 101,
        ],
        seq![
            112u8, 114, 111, 120, 121, 45, 97, 117, 116, 104, 111, 114, 105, 122, 97, 116, 105, 111,
            110,
        ],
        seq![116u8, 101],
        seq![116u8, 114, 97, 105, 108, 101, 114],
        seq![116u8, 114, 97, 110, 115, 102, 101, 114, 45, 101, 110, 99, 111, 100, 105, 110, 103],
        seq![117u8, 112, 103, 114, 97, 100, 101],
    ]
}

/// The name is that of a hop-by-hop header, in any letter case.
pub open spec fn is_hop_by_hop(name: Seq<u8>) -> bool {
    exists|k: int|
        0 <= k < hop_by_hop_names().len() && same_name(name, #[trigger] hop_by_hop_names()[k])
}

/// The bytes of `connection`.
pub open spec fn connection_name() -> Seq<u8> {
    hop_by_hop_names()[0]
}

/// A space or a horizontal tab.
pub open spec fn is_blank(b: u8) -> bool {
    b == 32 || b == 9
}

/// `s` without the blanks at its start.
pub open spec fn trim_start(s: Seq<u8>) -> Seq<u8>
    decreases s.len(),
{
    if s.len() > 0 && is_blank(s[0]) {
        trim_start(s.drop_first())
    } else {
        s
    }
}

/// `s` without the blanks at its end.
pub open spec fn trim_end(s: Seq<u8>) -> Seq<u8>
    decreases s.len(),
{
    if s.len() > 0 && is_blank(s.last()) {
        trim_end(s.drop_last())
    } else {
        s
    }
}

/// `s` without the blanks at its start and at its end.
pub open spec fn trim(s: Seq<u8>) -> Seq<u8> {
    trim_end(trim_start(s))
}

/// `value[from..to]` is one item of the comma-separated list `value`: it
/// reaches from the start of the list or a comma to the next comma or the
/// end of the list.
pub open spec fn is_item(value: Seq<u8>, from: int, to: int) -> bool {
    &&& 0 <= from <= to <= value.len()
    &&& from == 0 || value[from - 1] == 44
    &&& to == value.len() || value[to] == 44
    &&& forall|k: int| from <= k < to ==> value[k] != 44
}

/// The item `value[from..to]` of the list `value`, blanks around it left
/// off, is the name `name`.
pub open spec fn item_names(value: Seq<u8>, from: int, to: int, name: Seq<u8>) -> bool {
    &&& is_item(value, from, to)
    &&& name.len() > 0
    &&& same_name(trim(value.subrange(from, to)), name)
}

/// The comma-separated list `value` names `name` in one of its items.
pub open spec fn lists(value: Seq<u8>, name: Seq<u8>) -> bool {
    exists|from: int, to: int| #[trigger] item_names(value, from, to, name)
}

/// A `Connection` header among `headers` names `name` as bound to the
/// connection.
pub open spec fn nominated(headers: Seq<HeaderView>, name: Seq<u8>) -> bool {
    exists|i: int|
        0 <= i < headers.len() && same_name((#[trigger] headers[i]).name, connection_name())
            && lists(headers[i].value, name)
}

/// A header of this name, standing among `headers`, is held back on this
/// leg: `Host` on the way to the upstream; on the way back the hop-by-hop
/// headers and those that a `Connection` header of the response names.
pub open spec fn blocked(direction: Direction, headers: Seq<HeaderView>, name: Seq<u8>) -> bool {
    match direction {
        Direction::Request => is_host(name),
        Direction::Response => is_hop_by_hop(name) || nominated(headers, name),
    }
}

/// What is left of a header list on this leg: the headers that are not
/// blocked, in their order, repeated names included.
pub open spec fn filtered(direction: Direction, headers: Seq<HeaderView>) -> Seq<HeaderView> {
    headers.filter(|h: HeaderView| !blocked(direction, headers, h.name))
}

/// Compares two header names without regard to ASCII letter case.
pub fn names_match(a: &Vec<u8>, b: &Vec<u8>) -> (same: bool)
    ensures
        same == same_name(a@, b@),
{
    if a.len() != b.len() {
        return false;
    }
    let n = a.len();
    let mut i: usize = 0;
    while i < n
        invariant
            i <= n,
            n == a.len(),
            n == b.len(),
            forall|j: int| 0 <= j < i ==> ascii_lower(#[trigger] a[j]) == ascii_lower(b[j]),
        decreases n - i,
    {
        if lower(a[i]) != lower(b[i]) {
            return false;
        }
        i = i + 1;
    }
    true
}

fn lower(b: u8) -> (l: u8)
    ensures
        l == ascii_lower(b),
{
    if 65 <= b && b <= 90 {
        b + 32
    } else {
        b
    }
}

fn host_bytes() -> (name: Vec<u8>)
    ensures
        name@ == host_name(),
{
    let name: Vec<u8> = vec![104, 111, 115, 116];
    assert(name@ =~= host_name());
    name
}

fn connection_bytes() -> (name: Vec<u8>)
    ensures
        name@ == connection_name(),
{
    let name: Vec<u8> = vec![99, 111, 110, 110, 101, 99, 116, 105, 111, 110];
    assert(name@ =~= connection_name());
    name
}

fn hop_by_hop_list() -> (names: Vec<Vec<u8>>)
    ensures
        names.len() == hop_by_hop_names().len(),
        forall|k: int| 0 <= k < names.len() ==> (#[trigger] names[k])@ == hop_by_hop_names()[k],
{
    let connection: Vec<u8> = vec![99, 111, 110, 110, 101, 99, 116, 105, 111, 110];
    let keep_alive: Vec<u8> = vec![107, 101, 101, 112, 45, 97, 108, 105, 118, 101];
    let proxy_authenticate: Vec<u8> = vec![
        112, 114, 111, 120, 121, 45, 97, 117, 116, 104, 101, 110, 116, 105, 99, 97, 116, 101,
    ];
    let proxy_authorization: Vec<u8> = vec![
        112, 114, 111, 120, 121, 45, 97, 117, 116, 104, 111, 114, 105, 122, 97, 116, 105, 111, 110,
    ];
    let te: Vec<u8> = vec![116, 101];
    let trailer: Vec<u8> = vec![116, 114, 97, 105, 108, 101, 114];
    let transfer_encoding: Vec<u8> = vec![
        116, 114, 97, 110, 115, 102, 101, 114, 45, 101, 110, 99, 111, 100, 105, 110, 103,
    ];
    let upgrade: Vec<u8> = vec![117, 112, 103, 114, 97, 100, 101];
    proof {
        assert(connection@ =~= hop_by_hop_names()[0]);
        assert(keep_alive@ =~= hop_by_hop_names()[1]);
        assert(proxy_authenticate@ =~= hop_by_hop_names()[2]);
        assert(proxy_authorization@ =~= hop_by_hop_names()[3]);
        assert(te@ =~= hop_by_hop_names()[4]);
        assert(trailer@ =~= hop_by_hop_names()[5]);
        assert(transfer_encoding@ =~= hop_by_hop_names()[6]);
        assert(upgrade@ =~= hop_by_hop_names()[7]);
    }
    let names: Vec<Vec<u8>> = vec![
        connection,
        keep_alive,
        proxy_authenticate,
        proxy_authorization,
        te,
        trailer,
        transfer_encoding,
        upgrade,
    ];
    names
}

/// Tells whether a header of this name is held back on the request leg.
pub fn is_host_name(name: &Vec<u8>) -> (host: bool)
    ensures
        host == is_host(name@),
{
    let host = host_bytes();
    names_match(name, &host)
}

/// Tells whether a header of this name is held back on the response leg.
pub fn is_hop_by_hop_name(name: &Vec<u8>) -> (hop: bool)
    ensures
        hop == is_hop_by_hop(name@),
{
    let names = hop_by_hop_list();
    let n = names.len();
    let mut k: usize = 0;
    while k < n
        invariant
            k <= n,
            n == names.len(),
            names.len() == hop_by_hop_names().len(),
            forall|j: int| 0 <= j < names.len() ==> (#[trigger] names[j])@ == hop_by_hop_names()[j],
            forall|j: int| 0 <= j < k ==> !same_name(name@, #[trigger] hop_by_hop_names()[j]),
        decreases n - k,
    {
        if names_match(name, &names[k]) {
            assert(same_name(name@, hop_by_hop_names()[k as int]));
            return true;
        }
        k = k + 1;
    }
    false
}

fn is_blank_byte(b: u8) -> (blank: bool)
    ensures
        blank == is_blank(b),
{
    b == 32 || b == 9
}

fn trim_bounds(value: &Vec<u8>, from: usize, to: usize) -> (bounds: (usize, usize))
    requires
        from <= to <= value.len(),
    ensures
        from <= bounds.0 <= bounds.1 <= to,
        value@.subrange(bounds.0 as int, bounds.1 as int) == trim(
            value@.subrange(from as int, to as int),
        ),
{
    let mut x = from;
    while x < to && is_blank_byte(value[x])
        invariant
            from <= x <= to <= value.len(),
            trim_start(value@.subrange(from as int, to as int)) == trim_start(
                value@.subrange(x as int, to as int),
            ),
        decreases to - x,
    {
        proof {
            assert(value@.subrange(x as int, to as int).drop_first() =~= value@.subrange(
                x as int + 1,
                to as int,
            ));
        }
        x = x + 1;
    }
    let mut y = to;
    while y > x && is_blank_byte(value[y - 1])
        invariant
            x <= y <= to <= value.len(),
            trim_end(value@.subrange(x as int, to as int)) == trim_end(
                value@.subrange(x as int, y as int),
            ),
        decreases y - x,
    {
        proof {
            assert(value@.subrange(x as int, y as int).drop_last() =~= value@.subrange(
                x as int,
                y as int - 1,
            ));
        }
        y = y - 1;
    }
    (x, y)
}

fn range_matches(value: &Vec<u8>, from: usize, to: usize, name: &Vec<u8>) -> (same: bool)
    requires
        from <= to <= value.len(),
    ensures
        same == same_name(value@.subrange(from as int, to as int), name@),
{
    if to - from != name.len() {
        return false;
    }
    let n = name.len();
    let mut i: usize = 0;
    while i < n
        invariant
            i <= n,
            n == name.len(),
            n == to - from,
            from <= to <= value.len(),
            forall|j: int|
                0 <= j < i ==> ascii_lower(#[trigger] value@.subrange(from as int, to as int)[j])
                    == ascii_lower(name[j]),
        decreases n - i,
    {
        if lower(value[from + i]) != lower(name[i]) {
            assert(value@.subrange(from as int, to as int)[i as int] == value[from + i]);
            return false;
        }
        i = i + 1;
    }
    true
}

/// Tells whether a comma-separated header value names `name` in one of its
/// items.
pub fn value_lists(value: &Vec<u8>, name: &Vec<u8>) -> (listed: bool)
    ensures
        listed == lists(value@, name@),
{
    if name.len() == 0 {
        return false;
    }
    let len = value.len();
    let mut from: usize = 0;
    let mut i: usize = 0;
    loop
        invariant
            from <= i <= len,
            len == value.len(),
            name.len() > 0,
            from == 0 || value[from - 1] == 44,
            forall|k: int| from <= k < i ==> value[k] != 44,
            forall|p: int, q: int| p < from ==> !#[trigger] item_names(value@, p, q, name@),
        decreases len - i,
    {
        if i == len || value[i] == 44 {
            let (x, y) = trim_bounds(value, from, i);
            proof {
                assert(is_item(value@, from as int, i as int));
            }
            if range_matches(value, x, y, name) {
                assert(item_names(value@, from as int, i as int, name@));
                return true;
            }
            proof {
                assert forall|p: int, q: int| p < i + 1 implies !#[trigger] item_names(
                    value@,
                    p,
                    q,
                    name@,
                ) by {
                    if p >= from && is_item(value@, p, q) {
                        if p > from {
                            assert(value[p - 1] == 44);
                        } else if q < i {
                            assert(value[q] == 44);
                        } else if q > i {
                            assert(value[i as int] != 44);
                        }
                    }
                }
            }
            if i == len {
                proof {
                    assert forall|p: int, q: int| !#[trigger] item_names(value@, p, q, name@) by {
                        if p >= len + 1 {
                            assert(!is_item(value@, p, q));
                        }
                    }
                }
                return false;
            }
            from = i + 1;
        }
        i = i + 1;
    }
}

/// Tells whether a `Connection` header among `headers` names `name`.
pub fn is_nominated(headers: &Vec<Header>, name: &Vec<u8>) -> (named: bool)
    ensures
        named == nominated(views(headers@), name@),
{
    let connection = connection_bytes();
    let n = headers.len();
    let mut i: usize = 0;
    while i < n
        invariant
            i <= n,
            n == headers.len(),
            connection@ == connection_name(),
            forall|j: int|
                0 <= j < i ==> !(same_name((#[trigger] views(headers@)[j]).name, connection_name())
                    && lists(views(headers@)[j].value, name@)),
        decreases n - i,
    {
        let header = &headers[i];
        assert(views(headers@)[i as int] == header@);
        if names_match(&header.name, &connection) && value_lists(&header.value, name) {
            return true;
        }
        i = i + 1;
    }
    false
}

fn filter_headers(direction: Direction, headers: &Vec<Header>) -> (kept: Vec<Header>)
    ensures
        views(kept@) == filtered(direction, views(headers@)),
{
    let mut kept: Vec<Header> = Vec::new();
    let n = headers.len();
    let mut i: usize = 0;
    let ghost all = views(headers@);
    let ghost keep = |h: HeaderView| !blocked(direction, all, h.name);
    proof {
        reveal(Seq::filter);
        assert(all.take(0) =~= Seq::<HeaderView>::empty());
        assert(views(kept@) =~= Seq::<HeaderView>::empty());
    }
    while i < n
        invariant
            i <= n,
            n == headers.len(),
            all == views(headers@),
            keep == |h: HeaderView| !blocked(direction, all, h.name),
            views(kept@) == all.take(i as int).filter(keep),
        decreases n - i,
    {
        let header = &headers[i];
        let hold = match direction {
            Direction::Request => is_host_name(&header.name),
            Direction::Response => is_hop_by_hop_name(&header.name) || is_nominated(
                headers,
                &header.name,
            ),
        };
        let ghost before = all.take(i as int);
        let ghost after = all.take(i as int + 1);
        let ghost earlier = views(kept@);
        proof {
            reveal(Seq::filter);
            assert(after.drop_last() =~= before);
            assert(after.last() == header@);
            assert(hold == blocked(direction, all, header@.name));
            assert(keep(header@) == !hold);
        }
        if !hold {
            let copy = Header { name: header.name.clone(), value: header.value.clone() };
            kept.push(copy);
            proof {
                assert(copy@ == header@);
                assert(views(kept@) =~= earlier.push(header@));
            }
        }
        i = i + 1;
    }
    proof {
        assert(all.take(n as int) =~= all);
    }
    kept
}

/// Removes every `Host` header, whatever its letter case, so that the
/// client can set it for the upstream. All other headers pass unchanged, in
/// order, repeated names included.
pub fn filter_request_headers(headers: &Vec<Header>) -> (kept: Vec<Header>)
    ensures
        views(kept@) == filtered(Direction::Request, views(headers@)),
        forall|i: int| 0 <= i < kept.len() ==> !is_host(#[trigger] kept[i].name@),
{
    let kept = filter_headers(Direction::Request, headers);
    proof {
        lemma_filtered_passes(Direction::Request, views(headers@));
        assert forall|i: int| 0 <= i < kept.len() implies !is_host(#[trigger] kept[i].name@) by {
            assert(views(kept@)[i] == kept[i]@);
        }
    }
    kept
}

/// Removes the hop-by-hop headers of an upstream response: those of the
/// fixed list and those that a `Connection` header of the response names.
/// All other headers pass unchanged, in order, repeated names included.
pub fn filter_response_headers(headers: &Vec<Header>) -> (kept: Vec<Header>)
    ensures
        views(kept@) == filtered(Direction::Response, views(headers@)),
        forall|i: int|
            0 <= i < kept.len() ==> !is_hop_by_hop(#[trigger] kept[i].name@) && !nominated(
                views(headers@),
                kept[i].name@,
            ),
{
    let kept = filter_headers(Direction::Response, headers);
    proof {
        lemma_filtered_passes(Direction::Response, views(headers@));
        assert forall|i: int| 0 <= i < kept.len() implies !is_hop_by_hop(
            #[trigger] kept[i].name@,
        ) && !nominated(views(headers@), kept[i].name@) by {
            assert(views(kept@)[i] == kept[i]@);
        }
    }
    kept
}

/// No header that is left after filtering is blocked on that leg, and every
/// one of them stood in the list that was filtered.
pub proof fn lemma_filtered_passes(direction: Direction, headers: Seq<HeaderView>)
    ensures
        forall|i: int|
            0 <= i < filtered(direction, headers).len() ==> {
                &&& !blocked(direction, headers, (#[trigger] filtered(direction, headers)[i]).name)
                &&& headers.contains(filtered(direction, headers)[i])
            },
{
    let keep = |h: HeaderView| !blocked(direction, headers, h.name);
    assert forall|i: int| 0 <= i < filtered(direction, headers).len() implies {
        &&& !blocked(direction, headers, (#[trigger] filtered(direction, headers)[i]).name)
        &&& headers.contains(filtered(direction, headers)[i])
    } by {
        let kept = headers.filter(keep);
        assert(kept.contains(kept[i]));
        headers.lemma_filter_contains_rev(keep, kept[i]);
        headers.lemma_filter_pred(keep, i);
    }
}

} // verus!
