//! The argument buffer of a query program: for each argument of its entry
//! point, the extension the calls go to and the encoded calls themselves.
//!
//! An argument that takes one call is laid out as the extension id (eight
//! little-endian bytes), the call's size (one byte), then the call. An
//! argument that takes a list of calls is laid out as the extension id, the
//! number of calls (one byte), the size of each call (one byte), then the
//! calls one after the other.
use vstd::prelude::*;
use crate::codec::{le_bytes, le_value, lemma_le_value_le_bytes, lemma_pow256_small, pow256, read_u64_le, scale_u64};

verus! {

/// A call as the entry point receives it: the extension it goes to, and the
/// address and size of its encoded bytes.
#[derive(PartialEq, Eq, Structural, Clone, Copy, Debug)]
pub struct CallSlot {
    pub extension_id: u64,
    pub call_ptr: u32,
    pub call_size: u32,
}

/// The calls one argument of the entry point receives.
#[derive(Debug)]
pub enum CallArg {
    Single(CallSlot),
    Multi(Vec<CallSlot>),
}

pub enum CallArgView {
    Single(CallSlot),
    Multi(Seq<CallSlot>),
}

impl View for CallArg {
    type V = CallArgView;

    open spec fn view(&self) -> CallArgView {
        match self {
            CallArg::Single(s) => CallArgView::Single(*s),
            CallArg::Multi(v) => CallArgView::Multi(v@),
        }
    }
}

/// The `num` calls of `size` bytes each that start at `first` in a buffer
/// placed at address `base`.
pub open spec fn slots(extension_id: u64, base: nat, first: nat, num: nat, size: nat) -> Seq<CallSlot> {
    Seq::new(
        num,
        |i: int|
            CallSlot {
                extension_id,
                call_ptr: (base + first + i * size) as u32,
                call_size: size as u32,
            },
    )
}

/// The calls one argument reads at offset `off` of the buffer `data`, which
/// lies at address `base`, and the offset where the next argument starts:
/// `None` where the buffer ends too early.
pub open spec fn arg_at(multi: bool, data: Seq<u8>, off: nat, base: nat) -> Option<(CallArgView, nat)> {
    if multi {
        if off + 10 > data.len() {
            None
        } else {
            let id = le_value(data.subrange(off as int, off as int + 8)) as u64;
            let num = data[off as int + 8] as nat;
            let size = data[off as int + 9] as nat;
            let next = off + 10 + num * size;
            if next > data.len() {
                None
            } else {
                Some((CallArgView::Multi(slots(id, base, off + 10, num, size)), next))
            }
        }
    } else {
        if off + 9 > data.len() {
            None
        } else {
            let id = le_value(data.subrange(off as int, off as int + 8)) as u64;
            let size = data[off as int + 8] as nat;
            let next = off + 9 + size;
            if next > data.len() {
                None
            } else {
                Some((CallArgView::Single(slots(id, base, off + 9, 1, size)[0]), next))
            }
        }
    }
}

/// What the entry point reads from the buffer `data`, placed at address
/// `base`, starting at offset `off`, for arguments of the given kinds
/// (`true` for a list of calls): `None` where the buffer ends too early.
pub open spec fn parse_call_args(multi: Seq<bool>, data: Seq<u8>, off: nat, base: nat) -> Option<
    Seq<CallArgView>,
>
    decreases multi.len(),
{
    if multi.len() == 0 {
        Some(Seq::empty())
    } else {
        match arg_at(multi[0], data, off, base) {
            Some((a, next)) => match parse_call_args(multi.drop_first(), data, next, base) {
                Some(rest) => Some(seq![a] + rest),
                None => None,
            },
            None => None,
        }
    }
}

/// Reads the calls for each argument of a query program's entry point from
/// its argument buffer `data`, which lies at address `base`. `multi[i]` says
/// whether argument `i` takes a list of calls. Gives `None` where the buffer
/// ends before the layout does.
pub fn read_call_args(multi: &[bool], data: &[u8], base: u32) -> (r: Option<Vec<CallArg>>)
    requires
        base + data@.len() <= u32::MAX,
    ensures
        match parse_call_args(multi@, data@, 0, base as nat) {
            Some(args) => r matches Some(v) && v@.map_values(|a: CallArg| a@) == args,
            None => r is None,
        },
{
    let mut out: Vec<CallArg> = Vec::new();
    let mut off: usize = 0;
    let mut i: usize = 0;
    proof {
        assert(multi@.skip(0) =~= multi@);
        assert(out@.map_values(|a: CallArg| a@) =~= Seq::<CallArgView>::empty());
        match parse_call_args(multi@, data@, 0, base as nat) {
            Some(rest) => {
                assert(Seq::<CallArgView>::empty() + rest =~= rest);
            },
            None => {},
        }
    }
    while i < multi.len()
        invariant
            i <= multi@.len(),
            off <= data@.len(),
            base + data@.len() <= u32::MAX,
            parse_call_args(multi@, data@, 0, base as nat) == match parse_call_args(
                multi@.skip(i as int),
                data@,
                off as nat,
                base as nat,
            ) {
                Some(rest) => Some(out@.map_values(|a: CallArg| a@) + rest),
                None => None,
            },
        decreases multi@.len() - i,
    {
        let ghost ks = multi@.skip(i as int);
        assert(ks.drop_first() =~= multi@.skip(i + 1));
        assert(ks[0] == multi@[i as int]);
        let ghost before = out@.map_values(|a: CallArg| a@);
        if multi[i] {
            if data.len() - off < 10 {
                return None;
            }
            let id = read_u64_le(data, off);
            let num = data[off + 8] as usize;
            let size = data[off + 9] as usize;
            assert(num * size <= 255 * 255) by (nonlinear_arith)
                requires
                    num < 256,
                    size < 256,
            ;
            if num * size > data.len() - off - 10 {
                return None;
            }
            let mut calls: Vec<CallSlot> = Vec::new();
            let mut j: usize = 0;
            while j < num
                invariant
                    j <= num,
                    num < 256,
                    size < 256,
                    off + 10 + num * size <= data@.len(),
                    base + data@.len() <= u32::MAX,
                    calls@ == slots(id, base as nat, (off + 10) as nat, num as nat, size as nat).take(
                        j as int,
                    ),
                decreases num - j,
            {
                assert(j * size <= num * size) by (nonlinear_arith)
                    requires
                        j < num,
                ;
                let p = base + (off as u32) + 10 + (j as u32) * (size as u32);
                calls.push(CallSlot { extension_id: id, call_ptr: p, call_size: size as u32 });
                j = j + 1;
                assert(calls@ =~= slots(id, base as nat, (off + 10) as nat, num as nat, size as nat).take(
                    j as int,
                ));
            }
            assert(calls@ =~= slots(id, base as nat, (off + 10) as nat, num as nat, size as nat));
            out.push(CallArg::Multi(calls));
            off = off + 10 + num * size;
        } else {
            if data.len() - off < 9 {
                return None;
            }
            let id = read_u64_le(data, off);
            let size = data[off + 8] as usize;
            if size > data.len() - off - 9 {
                return None;
            }
            let p = base + (off as u32) + 9;
            out.push(CallArg::Single(CallSlot { extension_id: id, call_ptr: p, call_size: size as u32 }));
            off = off + 9 + size;
        }
        assert(out@.map_values(|a: CallArg| a@) =~= before + seq![out@[out@.len() - 1]@]);
        i = i + 1;
    }
    assert(multi@.skip(i as int) =~= Seq::<bool>::empty());
    assert(out@.map_values(|a: CallArg| a@) + Seq::<CallArgView>::empty() =~= out@.map_values(
        |a: CallArg| a@,
    ));
    Some(out)
}

/// A group of calls for one argument of the entry point, as a host puts it
/// into the argument buffer.
#[derive(Debug)]
pub struct CallGroup {
    pub extension_id: u64,
    pub calls: Vec<Vec<u8>>,
    pub multi: bool,
}

pub struct CallGroupView {
    pub extension_id: u64,
    pub calls: Seq<Seq<u8>>,
    pub multi: bool,
}

impl View for CallGroup {
    type V = CallGroupView;

    open spec fn view(&self) -> CallGroupView {
        CallGroupView {
            extension_id: self.extension_id,
            calls: self.calls@.map_values(|c: Vec<u8>| c@),
            multi: self.multi,
        }
    }
}

/// The size of each call of a group (a group has calls of one size).
pub open spec fn call_size(g: CallGroupView) -> nat {
    if g.calls.len() > 0 {
        g.calls[0].len()
    } else {
        0
    }
}

/// The group fits the layout: one call for a single argument, at most 255
/// calls for a list, every call of one size of at most 255 bytes.
pub open spec fn group_ok(g: CallGroupView) -> bool {
    &&& if g.multi {
        g.calls.len() <= 255
    } else {
        g.calls.len() == 1
    }
    &&& call_size(g) <= 255
    &&& forall|j: int| 0 <= j < g.calls.len() ==> (#[trigger] g.calls[j]).len() == call_size(g)
}

/// The calls, one after the other.
pub open spec fn concat(cs: Seq<Seq<u8>>) -> Seq<u8>
    decreases cs.len(),
{
    if cs.len() == 0 {
        Seq::empty()
    } else {
        concat(cs.drop_last()) + cs.last()
    }
}

/// The bytes of one group in the argument buffer.
pub open spec fn group_bytes(g: CallGroupView) -> Seq<u8> {
    if g.multi {
        le_bytes(g.extension_id as nat, 8) + seq![g.calls.len() as u8, call_size(g) as u8] + concat(
            g.calls,
        )
    } else {
        le_bytes(g.extension_id as nat, 8) + seq![call_size(g) as u8] + concat(g.calls)
    }
}

/// The argument buffer for the groups, in order.
pub open spec fn call_data(gs: Seq<CallGroupView>) -> Seq<u8>
    decreases gs.len(),
{
    if gs.len() == 0 {
        Seq::empty()
    } else {
        call_data(gs.drop_last()) + group_bytes(gs.last())
    }
}

/// For each group, whether it fills an argument that takes a list.
pub open spec fn group_kinds(gs: Seq<CallGroupView>) -> Seq<bool> {
    gs.map_values(|g: CallGroupView| g.multi)
}

/// Lays out the groups of calls as the argument buffer of a query program's
/// entry point.
pub fn encode_call_data(groups: &Vec<CallGroup>) -> (r: Vec<u8>)
    requires
        forall|i: int| 0 <= i < groups@.len() ==> group_ok(#[trigger] groups@[i]@),
    ensures
        r@ == call_data(groups@.map_values(|g: CallGroup| g@)),
{
    let mut out: Vec<u8> = Vec::new();
    for i in 0..groups.len()
        invariant
            forall|k: int| 0 <= k < groups@.len() ==> group_ok(#[trigger] groups@[k]@),
            out@ == call_data(groups@.take(i as int).map_values(|g: CallGroup| g@)),
    {
        let g = &groups[i];
        let ghost gv = g@;
        assert(group_ok(groups@[i as int]@));
        let mut id_bytes = scale_u64(g.extension_id);
        let ghost start = out@;
        out.append(&mut id_bytes);
        let n = g.calls.len();
        let size: usize = if n > 0 {
            g.calls[0].len()
        } else {
            0
        };
        assert(size == call_size(gv));
        if g.multi {
            out.push(n as u8);
        }
        out.push(size as u8);
        let ghost head = out@;
        for j in 0..n
            invariant
                n == g.calls@.len(),
                gv == g@,
                out@ == head + concat(gv.calls.take(j as int)),
        {
            let mut c = g.calls[j].clone();
            assert(c@ =~= g.calls@[j as int]@);
            let ghost prev = out@;
            out.append(&mut c);
            assert(gv.calls.take(j + 1).drop_last() =~= gv.calls.take(j as int));
            assert(gv.calls[j as int] == g.calls@[j as int]@);
        }
        assert(gv.calls.take(n as int) =~= gv.calls);
        proof {
            let a = groups@.take(i + 1).map_values(|g: CallGroup| g@);
            assert(a.drop_last() =~= groups@.take(i as int).map_values(|g: CallGroup| g@));
            assert(a.last() == gv);
            if gv.multi {
                assert(out@ =~= start + group_bytes(gv));
            } else {
                assert(out@ =~= start + group_bytes(gv));
            }
        }
    }
    assert(groups@.take(groups.len() as int) =~= groups@);
    out
}

proof fn lemma_call_data_front(gs: Seq<CallGroupView>)
    requires
        gs.len() > 0,
    ensures
        call_data(gs) == group_bytes(gs[0]) + call_data(gs.drop_first()),
    decreases gs.len(),
{
    if gs.len() == 1 {
        assert(gs.drop_last() =~= Seq::<CallGroupView>::empty());
        assert(gs.drop_first() =~= Seq::<CallGroupView>::empty());
        assert(call_data(gs) =~= group_bytes(gs[0]) + call_data(gs.drop_first()));
    } else {
        lemma_call_data_front(gs.drop_last());
        assert(gs.drop_last().drop_first() =~= gs.drop_first().drop_last());
        assert(gs.drop_first().last() == gs.last());
        assert(call_data(gs) =~= group_bytes(gs[0]) + call_data(gs.drop_first()));
    }
}

proof fn lemma_concat(cs: Seq<Seq<u8>>, size: nat)
    requires
        forall|j: int| 0 <= j < cs.len() ==> (#[trigger] cs[j]).len() == size,
    ensures
        concat(cs).len() == cs.len() * size,
        forall|j: int|
            0 <= j < cs.len() ==> concat(cs).subrange(j * size, j * size + size) == #[trigger] cs[j],
    decreases cs.len(),
{
    if cs.len() > 0 {
        let p = cs.drop_last();
        lemma_concat(p, size);
        let n = cs.len() - 1;
        assert(concat(cs).len() == cs.len() * size) by (nonlinear_arith)
            requires
                concat(cs).len() == concat(p).len() + cs.last().len(),
                concat(p).len() == p.len() * size,
                cs.last().len() == size,
                p.len() == cs.len() - 1,
        ;
        assert forall|j: int| 0 <= j < cs.len() implies concat(cs).subrange(j * size, j * size + size)
            == #[trigger] cs[j] by {
            assert(j * size + size <= cs.len() * size) by (nonlinear_arith)
                requires
                    0 <= j < cs.len(),
            ;
            if j < n {
                assert(j * size + size <= n * size) by (nonlinear_arith)
                    requires
                        0 <= j < n,
                ;
                assert(p[j] == cs[j]);
                assert(concat(cs).subrange(j * size, j * size + size) =~= concat(p).subrange(
                    j * size,
                    j * size + size,
                ));
            } else {
                assert(concat(cs).subrange(j * size, j * size + size) =~= cs.last());
            }
        }
    }
}

/// The slot `s` stands for the call `call` to extension `id` in the buffer
/// `data` that lies at address `base`.
pub open spec fn slot_holds(s: CallSlot, id: u64, call: Seq<u8>, data: Seq<u8>, base: nat) -> bool {
    &&& s.extension_id == id
    &&& s.call_size as nat == call.len()
    &&& base <= s.call_ptr
    &&& s.call_ptr - base + call.len() <= data.len()
    &&& data.subrange(s.call_ptr - base, s.call_ptr - base + call.len()) == call
}

/// What an argument receives stands for the calls of its group.
pub open spec fn arg_holds(a: CallArgView, g: CallGroupView, data: Seq<u8>, base: nat) -> bool {
    match a {
        CallArgView::Single(s) => !g.multi && slot_holds(s, g.extension_id, g.calls[0], data, base),
        CallArgView::Multi(ss) => g.multi && ss.len() == g.calls.len() && forall|j: int|
            0 <= j < ss.len() ==> slot_holds(#[trigger] ss[j], g.extension_id, g.calls[j], data, base),
    }
}

proof fn lemma_group_at(g: CallGroupView, data: Seq<u8>, off: nat, base: nat)
    requires
        group_ok(g),
        off + group_bytes(g).len() <= data.len(),
        data.subrange(off as int, off as int + group_bytes(g).len()) == group_bytes(g),
        base + data.len() <= u32::MAX,
    ensures
        arg_at(g.multi, data, off, base) matches Some((a, next)) && next == off + group_bytes(g).len()
            && arg_holds(a, g, data, base),
{
    let gb = group_bytes(g);
    let size = call_size(g);
    let num = g.calls.len();
    lemma_concat(g.calls, size);
    lemma_pow256_small();
    crate::codec::lemma_le_bytes_len(g.extension_id as nat, 8);
    lemma_le_value_le_bytes(g.extension_id as nat, 8);
    assert(data.subrange(off as int, off as int + 8) =~= gb.subrange(0, 8));
    assert(gb.subrange(0, 8) =~= le_bytes(g.extension_id as nat, 8));
    assert(data[off as int + 8] == gb[8]);
    if g.multi {
        assert(data[off as int + 9] == gb[9]);
        assert(gb.len() == 10 + num * size);
        let ss = slots(g.extension_id, base, off + 10, num, size);
        assert forall|j: int| 0 <= j < ss.len() implies slot_holds(
            #[trigger] ss[j],
            g.extension_id,
            g.calls[j],
            data,
            base,
        ) by {
            assert(j * size + size <= num * size) by (nonlinear_arith)
                requires
                    0 <= j < num,
            ;
            assert(ss[j].call_ptr == base + off + 10 + j * size);
            let lo = off as int + 10 + j * size;
            assert(data.subrange(lo, lo + size) =~= gb.subrange(10 + j * size, 10 + j * size + size));
            assert(gb.subrange(10 + j * size, 10 + j * size + size) =~= concat(g.calls).subrange(
                j * size,
                j * size + size,
            ));
        }
    } else {
        assert(gb.len() == 9 + num * size);
        assert(num == 1);
        assert(num * size == size) by (nonlinear_arith)
            requires
                num == 1,
        ;
        let ss = slots(g.extension_id, base, off + 9, 1, size);
        assert(ss[0].call_ptr == base + off + 9);
        assert(data.subrange(off as int + 9, off as int + 9 + size as int) =~= gb.subrange(9, 9 + size as int));
        assert(gb.subrange(9, 9 + size as int) =~= concat(g.calls).subrange(0, size as int));
        assert(0 * size + size == size);
    }
}

proof fn lemma_parse_groups(gs: Seq<CallGroupView>, data: Seq<u8>, off: nat, base: nat)
    requires
        forall|i: int| 0 <= i < gs.len() ==> group_ok(#[trigger] gs[i]),
        off + call_data(gs).len() <= data.len(),
        data.subrange(off as int, off as int + call_data(gs).len()) == call_data(gs),
        base + data.len() <= u32::MAX,
    ensures
        parse_call_args(group_kinds(gs), data, off, base) matches Some(args) && args.len()
            == gs.len() && forall|i: int|
            0 <= i < gs.len() ==> arg_holds(#[trigger] args[i], gs[i], data, base),
    decreases gs.len(),
{
    let ks = group_kinds(gs);
    if gs.len() > 0 {
        let g = gs[0];
        let rest = gs.drop_first();
        lemma_call_data_front(gs);
        let gb = group_bytes(g);
        let cd = call_data(gs);
        assert(group_ok(g));
        assert(cd.subrange(0, gb.len() as int) =~= gb);
        assert(data.subrange(off as int, off as int + gb.len()) =~= cd.subrange(0, gb.len() as int));
        lemma_group_at(g, data, off, base);
        let a = arg_at(g.multi, data, off, base)->Some_0.0;
        let next = off + gb.len();
        assert(ks[0] == g.multi);
        assert(ks.drop_first() =~= group_kinds(rest));
        assert(cd.subrange(gb.len() as int, cd.len() as int) =~= call_data(rest));
        assert(data.subrange(next as int, next as int + call_data(rest).len()) =~= cd.subrange(
            gb.len() as int,
            cd.len() as int,
        ));
        assert forall|i: int| 0 <= i < rest.len() implies group_ok(#[trigger] rest[i]) by {
            assert(group_ok(gs[i + 1]));
        }
        lemma_parse_groups(rest, data, next, base);
        let rargs = parse_call_args(group_kinds(rest), data, next, base)->Some_0;
        let args = seq![a] + rargs;
        assert(parse_call_args(ks, data, off, base) == Some(args));
        assert forall|i: int| 0 <= i < gs.len() implies arg_holds(#[trigger] args[i], gs[i], data, base) by {
            if i > 0 {
                assert(args[i] == rargs[i - 1]);
                assert(gs[i] == rest[i - 1]);
            }
        }
    }
}

/// Law: what a host lays out is what the entry point reads. For groups that
/// fit the layout, reading the buffer gives one argument per group, of the
/// group's kind, whose slots point at exactly the group's calls, addressed
/// to the group's extension.
pub proof fn law_call_data_roundtrip(gs: Seq<CallGroupView>, base: nat)
    requires
        forall|i: int| 0 <= i < gs.len() ==> group_ok(#[trigger] gs[i]),
        base + call_data(gs).len() <= u32::MAX,
    ensures
        parse_call_args(group_kinds(gs), call_data(gs), 0, base) matches Some(args) && args.len()
            == gs.len() && forall|i: int|
            0 <= i < gs.len() ==> arg_holds(#[trigger] args[i], gs[i], call_data(gs), base),
{
    assert(call_data(gs).subrange(0, call_data(gs).len() as int) =~= call_data(gs));
    lemma_parse_groups(gs, call_data(gs), 0, base);
}

} // verus!
