//! Assignment of ephemeral ports out of the dynamic range 49152..=65535.
//!
//! A fresh stack holds every dynamic port exactly once, highest at the bottom,
//! so that ports are handed out in ascending order; a returned port is the
//! next one handed out.

use vstd::prelude::*;

verus! {

/// Lowest port of the dynamic (ephemeral) range.
pub const DYNAMIC_PORT_MIN: u16 = 49152;

/// Highest port of the dynamic (ephemeral) range.
pub const DYNAMIC_PORT_MAX: u16 = 65535;

/// Number of ports in the dynamic range.
pub const DYNAMIC_PORT_COUNT: usize = 16384;

/// The contents of a fresh stack, bottom first: 65535, 65534, ..., 49152.
pub open spec fn initial_ports() -> Seq<u16> {
    Seq::new(16384, |i: int| (65535 - i) as u16)
}

/// Whether `port` lies in the dynamic range.
pub open spec fn is_dynamic(port: u16) -> bool {
    49152 <= port
}

/// What a pop does to a stack whose contents are `s`: the port it hands out
/// (if any) and the contents afterwards.
pub open spec fn spec_pop(s: Seq<u16>) -> (Option<u16>, Seq<u16>) {
    if s.len() == 0 {
        (None, s)
    } else {
        (Some(s.last()), s.drop_last())
    }
}

/// A stack of ports; its top is the next port handed out.
pub struct Stack {
    stack: Vec<u16>,
}

impl View for Stack {
    type V = Seq<u16>;

    closed spec fn view(&self) -> Seq<u16> {
        self.stack@
    }
}

impl Stack {
    /// A stack holding every dynamic port, 49152 on top.
    pub fn new() -> (s: Self)
        ensures
            s@ == initial_ports(),
    {
        let mut stack: Vec<u16> = Vec::with_capacity(DYNAMIC_PORT_COUNT);
        let mut i: u16 = 0;
        while i < 16384
            invariant
                i <= 16384,
                stack@ == initial_ports().take(i as int),
            decreases 16384 - i,
        {
            stack.push(65535 - i);
            i = i + 1;
            assert(stack@ =~= initial_ports().take(i as int));
        }
        assert(stack@ =~= initial_ports());
        Self { stack: stack }
    }

    /// Takes the top port off the stack, or `None` when the stack is empty.
    pub fn pop(&mut self) -> (r: Option<u16>)
        ensures
            (r, final(self)@) == spec_pop(old(self)@),
    {
        self.stack.pop()
    }

    /// Puts `port` on top of the stack.
    pub fn push(&mut self, port: u16)
        ensures
            final(self)@ == old(self)@.push(port),
    {
        self.stack.push(port)
    }
}

/// Hands out ephemeral ports and takes them back.
pub struct PortAssigner {
    stack: Stack,
}

impl View for PortAssigner {
    type V = Seq<u16>;

    closed spec fn view(&self) -> Seq<u16> {
        self.stack@
    }
}

impl PortAssigner {
    /// An assigner that can hand out every dynamic port, 49152 first.
    pub fn new() -> (p: Self)
        ensures
            p@ == initial_ports(),
    {
        Self { stack: Stack::new() }
    }

    /// Gives `port` back; it is the next port handed out.
    pub fn return_port(&mut self, port: u16)
        ensures
            final(self)@ == old(self)@.push(port),
    {
        self.stack.push(port)
    }

    /// Hands out the next port, or `None` when every port is in use.
    pub fn get_ephemeral_port(&mut self) -> (r: Option<u16>)
        ensures
            (r, final(self)@) == spec_pop(old(self)@),
    {
        self.stack.pop()
    }
}

/// A fresh stack holds each dynamic port exactly once and nothing else.
pub proof fn lemma_initial_ports_are_the_dynamic_range()
    ensures
        initial_ports().len() == DYNAMIC_PORT_COUNT,
        initial_ports().no_duplicates(),
        forall|i: int| 0 <= i < initial_ports().len() ==> is_dynamic(#[trigger] initial_ports()[i]),
        forall|port: u16| is_dynamic(port) ==> #[trigger] initial_ports().contains(port),
{
    let s = initial_ports();
    assert forall|port: u16| is_dynamic(port) implies #[trigger] s.contains(port) by {
        let i: int = 65535 - port;
        assert(s[i] == port);
    }
}

/// A port that was given back is the next one handed out, and taking it
/// leaves the assigner as it was before it was given back.
pub proof fn lemma_return_then_get(s: Seq<u16>, port: u16)
    ensures
        spec_pop(s.push(port)) == (Some(port), s),
{
    assert(s.push(port).drop_last() =~= s);
}

/// A fresh assigner, after `k` ports were taken from it, hands out `49152 + k`
/// next while `k < 16384`, and `None` once all 16384 are taken.
pub proof fn lemma_fresh_assigner_hands_out_in_order(k: nat)
    requires
        k <= DYNAMIC_PORT_COUNT,
    ensures
        k < DYNAMIC_PORT_COUNT ==> spec_pop(initial_ports().take(16384 - k)) == (
            Some((49152 + k) as u16),
            initial_ports().take(16383 - k),
        ),
        k == DYNAMIC_PORT_COUNT ==> spec_pop(initial_ports().take(0)).0 is None,
        spec_pop(initial_ports().take(16384 - k)).1 == initial_ports().take(
            if k < DYNAMIC_PORT_COUNT { 16383 - k } else { 0 },
        ),
{
    if k < DYNAMIC_PORT_COUNT {
        assert(initial_ports().take(16384 - k).drop_last() =~= initial_ports().take(16383 - k));
    }
}

/// After `k` ports were taken from a fresh assigner (`k <= 16384`), every
/// port it still holds is above all of those taken (49152 .. 49152 + k), so
/// no port is handed out twice unless it was given back.
pub proof fn lemma_taken_ports_are_not_held(k: nat)
    requires
        k <= DYNAMIC_PORT_COUNT,
    ensures
        forall|i: int|
            0 <= i < 16384 - k ==> #[trigger] initial_ports().take(16384 - k)[i] >= 49152 + k,
{
}

/// While only dynamic ports are given back, every port handed out is dynamic.
pub proof fn lemma_only_dynamic_ports_are_handed_out(s: Seq<u16>, port: u16)
    requires
        forall|i: int| 0 <= i < s.len() ==> is_dynamic(#[trigger] s[i]),
    ensures
        spec_pop(s).0 matches Some(p) ==> is_dynamic(p),
        forall|i: int| 0 <= i < spec_pop(s).1.len() ==> is_dynamic(#[trigger] spec_pop(s).1[i]),
        is_dynamic(port) ==> forall|i: int|
            0 <= i < s.push(port).len() ==> is_dynamic(#[trigger] s.push(port)[i]),
{
    if s.len() > 0 {
        assert(is_dynamic(s[s.len() - 1]));
    }
    assert forall|i: int| 0 <= i < s.push(port).len() && is_dynamic(port) implies is_dynamic(
        #[trigger] s.push(port)[i],
    ) by {
        if i < s.len() {
            assert(s.push(port)[i] == s[i]);
        }
    }
}

/// The assigner holds `held` while the ports in `out` are handed out and not
/// given back: every port held is dynamic, held once and not out, and every
/// dynamic port is held or out.
pub open spec fn ports_partitioned(held: Seq<u16>, out: Set<u16>) -> bool {
    &&& held.no_duplicates()
    &&& forall|i: int| 0 <= i < held.len() ==> is_dynamic(#[trigger] held[i]) && !out.contains(held[i])
    &&& forall|port: u16| is_dynamic(port) ==> held.contains(port) || out.contains(port)
    &&& forall|port: u16| out.contains(port) ==> is_dynamic(port)
}

/// A fresh assigner holds every dynamic port and none is out.
pub proof fn lemma_partition_initial()
    ensures
        ports_partitioned(initial_ports(), Set::empty()),
{
    lemma_initial_ports_are_the_dynamic_range();
}

/// Taking a port keeps the partition: the port handed out was not out
/// already (no port is handed out twice), and it is out afterwards. When
/// nothing is handed out, every dynamic port is out.
pub proof fn lemma_partition_take(held: Seq<u16>, out: Set<u16>)
    requires
        ports_partitioned(held, out),
    ensures
        spec_pop(held).0 matches Some(port) ==> !out.contains(port) && ports_partitioned(
            spec_pop(held).1,
            out.insert(port),
        ),
        spec_pop(held).0 is None ==> forall|port: u16| is_dynamic(port) ==> out.contains(port),
{
    if held.len() > 0 {
        let port = held.last();
        let rest = held.drop_last();
        assert(!out.contains(held[held.len() - 1]));
        assert forall|i: int| 0 <= i < rest.len() implies is_dynamic(#[trigger] rest[i]) && !out.insert(port).contains(rest[i]) by {
            assert(rest[i] == held[i]);
            assert(held[i] != held[held.len() - 1]);
        }
        assert forall|q: u16| is_dynamic(q) implies rest.contains(q) || out.insert(port).contains(q) by {
            if q != port && !out.contains(q) {
                let j = choose|j: int| 0 <= j < held.len() && held[j] == q;
                assert(j != held.len() - 1);
                assert(rest[j] == q);
            }
        }
        assert(rest.no_duplicates()) by {
            assert forall|i: int, j: int| 0 <= i < rest.len() && 0 <= j < rest.len() && i != j implies rest[i] != rest[j] by {
                assert(rest[i] == held[i] && rest[j] == held[j]);
            }
        }
    } else {
        assert forall|q: u16| is_dynamic(q) implies out.contains(q) by {
            if !out.contains(q) {
                assert(held.contains(q));
            }
        }
    }
}

/// Giving back a port that is out keeps the partition.
pub proof fn lemma_partition_give(held: Seq<u16>, out: Set<u16>, port: u16)
    requires
        ports_partitioned(held, out),
        out.contains(port),
    ensures
        ports_partitioned(held.push(port), out.remove(port)),
{
    let h = held.push(port);
    assert forall|i: int| 0 <= i < h.len() implies is_dynamic(#[trigger] h[i]) && !out.remove(port).contains(h[i]) by {
        if i < held.len() {
            assert(h[i] == held[i]);
        }
    }
    assert forall|q: u16| is_dynamic(q) implies h.contains(q) || out.remove(port).contains(q) by {
        if q == port {
            assert(h[held.len() as int] == q);
        } else if held.contains(q) {
            let j = choose|j: int| 0 <= j < held.len() && held[j] == q;
            assert(h[j] == q);
        }
    }
    assert(h.no_duplicates()) by {
        assert forall|i: int, j: int| 0 <= i < h.len() && 0 <= j < h.len() && i != j implies h[i] != h[j] by {
            if i < held.len() && j < held.len() {
                assert(h[i] == held[i] && h[j] == held[j]);
            } else if i < held.len() {
                assert(h[i] == held[i]);
                assert(!out.contains(held[i]));
            } else if j < held.len() {
                assert(h[j] == held[j]);
                assert(!out.contains(held[j]));
            }
        }
    }
}

/// The contents of a stack after `k` pops from `s`.
pub open spec fn after_pops(s: Seq<u16>, k: nat) -> Seq<u16>
    decreases k,
{
    if k == 0 {
        s
    } else {
        spec_pop(after_pops(s, (k - 1) as nat)).1
    }
}

/// A fresh assigner from which `k` ports were taken, and none given back,
/// holds the first `16384 - k` of its ports; its next port is `49152 + k`
/// while `k < 16384`, and `None` from then on: each dynamic port comes out
/// once, in ascending order.
pub proof fn lemma_takes_from_fresh_assigner(k: nat)
    ensures
        after_pops(initial_ports(), k) == initial_ports().take(
            if k < DYNAMIC_PORT_COUNT { 16384 - k } else { 0 },
        ),
        k < DYNAMIC_PORT_COUNT ==> spec_pop(after_pops(initial_ports(), k)).0 == Some((49152 + k) as u16),
        k >= DYNAMIC_PORT_COUNT ==> spec_pop(after_pops(initial_ports(), k)).0 is None,
    decreases k,
{
    if k == 0 {
        assert(initial_ports().take(16384) =~= initial_ports());
    } else {
        lemma_takes_from_fresh_assigner((k - 1) as nat);
        if k <= DYNAMIC_PORT_COUNT {
            lemma_fresh_assigner_hands_out_in_order((k - 1) as nat);
        }
    }
    if k < DYNAMIC_PORT_COUNT {
        lemma_fresh_assigner_hands_out_in_order(k);
    }
}

/// A call on an assigner: take a port, or give one back.
pub enum PortCall {
    Take,
    Give(u16),
}

/// What `call` does to an assigner holding `held` while the ports in `out`
/// are handed out: a take moves the top port out, a give-back puts the
/// port back on top.
pub open spec fn port_call_step(held: Seq<u16>, out: Set<u16>, call: PortCall) -> (Seq<u16>, Set<u16>) {
    match call {
        PortCall::Take => match spec_pop(held).0 {
            Some(port) => (spec_pop(held).1, out.insert(port)),
            None => (held, out),
        },
        PortCall::Give(port) => (held.push(port), out.remove(port)),
    }
}

/// The ports held and the ports out after `calls` on a fresh assigner.
pub open spec fn after_calls(calls: Seq<PortCall>) -> (Seq<u16>, Set<u16>)
    decreases calls.len(),
{
    if calls.len() == 0 {
        (initial_ports(), Set::empty())
    } else {
        let prev = after_calls(calls.drop_last());
        port_call_step(prev.0, prev.1, calls.last())
    }
}

/// Every port given back in `calls` was out when it was given back.
pub open spec fn gives_back_only_ports_out(calls: Seq<PortCall>) -> bool {
    forall|i: int|
        0 <= i < calls.len() ==> (#[trigger] calls[i] matches PortCall::Give(port) ==> after_calls(
            calls.take(i),
        ).1.contains(port))
}

/// Over any sequence of calls on a fresh assigner in which only ports that
/// are out are given back, the ports held and the ports out partition the
/// dynamic range after every call; every port taken lies in the range and
/// was not out already, so no port is held by two callers at once.
pub proof fn lemma_calls_keep_partition(calls: Seq<PortCall>)
    requires
        gives_back_only_ports_out(calls),
    ensures
        ports_partitioned(after_calls(calls).0, after_calls(calls).1),
        calls.len() > 0 && calls.last() is Take ==> (spec_pop(after_calls(calls.drop_last()).0).0 matches Some(
            port,
        ) ==> is_dynamic(port) && !after_calls(calls.drop_last()).1.contains(port)),
    decreases calls.len(),
{
    if calls.len() == 0 {
        lemma_partition_initial();
    } else {
        let prev = calls.drop_last();
        assert forall|i: int| 0 <= i < prev.len() implies (#[trigger] prev[i] matches PortCall::Give(port)
            ==> after_calls(prev.take(i)).1.contains(port)) by {
            assert(prev.take(i) =~= calls.take(i));
            assert(prev[i] == calls[i]);
        }
        lemma_calls_keep_partition(prev);
        let (held, out) = after_calls(prev);
        match calls.last() {
            PortCall::Take => {
                lemma_partition_take(held, out);
                if held.len() > 0 {
                    assert(is_dynamic(held[held.len() - 1]));
                }
            },
            PortCall::Give(port) => {
                assert(calls.take(calls.len() - 1) =~= prev);
                assert(calls[calls.len() - 1] == calls.last());
                lemma_partition_give(held, out, port);
            },
        }
    }
}

} // verus!
