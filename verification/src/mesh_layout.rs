//! The byte layout of a P3M1 mesh asset, decoded and checked.
//!
//! Every integer rule of the format is checked here. The rules that compare
//! floating-point values (a quaternion's length, a color's range, key time
//! order) are collected, in the order the format reaches them, as
//! `FloatCheck`s over the values' bit patterns; `MeshScan::finish` then
//! resolves the outcome from their verdicts. A float rule that fails stops
//! the decode where it stands, so it wins over any later structural error.
use vstd::prelude::*;

use crate::mesh::{AssetError, Reader, le16, le32, sp_count, sp_float, sp_name, sp_u16, sp_u32, sp_u8};
use crate::text::str_equals;

verus! {

/// Assets larger than this are refused before any allocation.
pub const MAX_ASSET_BYTES: usize = 33_554_432;
pub const MAX_NODES: usize = 256;
pub const MAX_VERTICES: usize = 100_000;
pub const MAX_INDICES: usize = 300_000;
pub const MAX_CLIPS: usize = 64;
pub const MAX_TOTAL_KEYS: usize = 500_000;

/// One skeleton node: its parent (`u32::MAX` for a root) and its rest
/// translation, rotation quaternion `(x, y, z, w)` and scale, as `f32` bits.
#[derive(Clone, Copy, Debug, PartialEq, Eq)]
pub struct NodeRecord {
    pub parent: u32,
    pub translation: (u32, u32, u32),
    pub rotation: (u32, u32, u32, u32),
    pub scale: (u32, u32, u32),
}

/// One vertex, its floats as bits, rigidly bound to one joint.
#[derive(Clone, Copy, Debug, PartialEq, Eq)]
pub struct VertexRecord {
    pub position: (u32, u32, u32),
    pub normal: (u32, u32, u32),
    pub color: (u32, u32, u32),
    pub joint: usize,
}

#[derive(Clone, Copy, Debug, PartialEq, Eq, Structural)]
pub enum ChannelPath {
    Translation,
    Rotation,
    Scale,
}

/// One animated property of one node: key times and, per key, three values
/// (four for a rotation), as `f32` bits.
#[derive(Clone, Debug, PartialEq, Eq)]
pub struct ChannelRecord {
    pub node: usize,
    pub path: ChannelPath,
    pub times: Vec<u32>,
    pub values: Vec<u32>,
}

#[derive(Clone, Debug, PartialEq, Eq)]
pub struct ClipRecord {
    pub name: String,
    pub duration: u32,
    pub channels: Vec<ChannelRecord>,
}

/// A decoded asset before its floats are interpreted.
#[derive(Clone, Debug, PartialEq, Eq)]
pub struct MeshLayout {
    pub names: Vec<String>,
    pub nodes: Vec<NodeRecord>,
    pub vertices: Vec<VertexRecord>,
    pub indices: Vec<u32>,
    pub clips: Vec<ClipRecord>,
}

/// A floating-point rule of the format, over `f32` bit patterns.
#[derive(Clone, Copy, Debug, PartialEq, Eq)]
pub enum FloatCheck {
    /// The rest rotation's squared length is within 0.9..=1.1 and no scale
    /// component has a magnitude below 0.00001.
    NodeTransform { rotation: (u32, u32, u32, u32), scale: (u32, u32, u32) },
    /// Every color component is within 0..=1.
    VertexColor { color: (u32, u32, u32) },
    /// The clip duration is above 0 and at most 3600 seconds.
    ClipDuration { duration: u32 },
    /// The key time is at least 0, at most the duration plus 0.001, and
    /// after the channel's previous key time.
    KeyTime { time: u32, duration: u32, previous: Option<u32> },
    /// A rotation key's squared length is within 0.1 of 1.
    KeyRotation { rotation: (u32, u32, u32, u32) },
}

pub struct ChannelModel {
    pub node: usize,
    pub path: ChannelPath,
    pub times: Seq<u32>,
    pub values: Seq<u32>,
}

pub struct ClipModel {
    pub name: Seq<char>,
    pub duration: u32,
    pub channels: Seq<ChannelModel>,
}

pub struct LayoutModel {
    pub names: Seq<Seq<char>>,
    pub nodes: Seq<NodeRecord>,
    pub vertices: Seq<VertexRecord>,
    pub indices: Seq<u32>,
    pub clips: Seq<ClipModel>,
}

impl View for ChannelRecord {
    type V = ChannelModel;

    open spec fn view(&self) -> ChannelModel {
        ChannelModel { node: self.node, path: self.path, times: self.times@, values: self.values@ }
    }
}

pub open spec fn channels_view(c: Seq<ChannelRecord>) -> Seq<ChannelModel> {
    c.map_values(|x: ChannelRecord| x@)
}

impl View for ClipRecord {
    type V = ClipModel;

    open spec fn view(&self) -> ClipModel {
        ClipModel {
            name: self.name@,
            duration: self.duration,
            channels: channels_view(self.channels@),
        }
    }
}

pub open spec fn clips_view(c: Seq<ClipRecord>) -> Seq<ClipModel> {
    c.map_values(|x: ClipRecord| x@)
}

pub open spec fn names_view(n: Seq<String>) -> Seq<Seq<char>> {
    n.map_values(|x: String| x@)
}

impl View for MeshLayout {
    type V = LayoutModel;

    open spec fn view(&self) -> LayoutModel {
        LayoutModel {
            names: names_view(self.names@),
            nodes: self.nodes@,
            vertices: self.vertices@,
            indices: self.indices@,
            clips: clips_view(self.clips@),
        }
    }
}

// ---------------------------------------------------------------------------
// The format, as reads from a byte offset.

/// `k` finite floats in a row.
pub open spec fn sp_floats(b: Seq<u8>, off: int, k: nat) -> Result<(Seq<u32>, int), AssetError>
    decreases k,
{
    if k == 0 {
        Ok((Seq::empty(), off))
    } else {
        match sp_floats(b, off, (k - 1) as nat) {
            Ok((vs, o)) => match sp_float(b, o) {
                Ok((v, o2)) => Ok((vs.push(v), o2)),
                Err(e) => Err(e),
            },
            Err(e) => Err(e),
        }
    }
}

/// Node `index`: name, parent (a root or an earlier node), then ten floats.
pub open spec fn sp_node(b: Seq<u8>, off: int, index: int) -> Result<
    (Seq<char>, NodeRecord, int),
    AssetError,
> {
    match sp_name(b, off) {
        Err(e) => Err(e),
        Ok((name, o1)) => match sp_u32(b, o1) {
            Err(e) => Err(e),
            Ok((p, o2)) => if p != u32::MAX && p >= index {
                Err(AssetError::Invalid)
            } else {
                match sp_floats(b, o2, 10) {
                    Err(e) => Err(e),
                    Ok((f, o3)) => Ok(
                        (
                            name,
                            NodeRecord {
                                parent: p,
                                translation: (f[0], f[1], f[2]),
                                rotation: (f[3], f[4], f[5], f[6]),
                                scale: (f[7], f[8], f[9]),
                            },
                            o3,
                        ),
                    ),
                }
            },
        },
    }
}

pub open spec fn node_check(n: NodeRecord) -> FloatCheck {
    FloatCheck::NodeTransform { rotation: n.rotation, scale: n.scale }
}

/// The first `k` nodes, and the float rules they reach.
pub open spec fn sp_nodes(b: Seq<u8>, off: int, k: nat) -> (
    Seq<FloatCheck>,
    Result<(Seq<Seq<char>>, Seq<NodeRecord>, int), AssetError>,
)
    decreases k,
{
    if k == 0 {
        (Seq::empty(), Ok((Seq::empty(), Seq::empty(), off)))
    } else {
        let (cs, r) = sp_nodes(b, off, (k - 1) as nat);
        match r {
            Err(e) => (cs, Err(e)),
            Ok((names, nodes, o)) => match sp_node(b, o, k - 1) {
                Err(e) => (cs, Err(e)),
                Ok((name, n, o2)) => (cs.push(node_check(n)), Ok((names.push(name), nodes.push(n), o2))),
            },
        }
    }
}

/// One vertex: nine floats, then a joint that must name a node.
pub open spec fn sp_vertex(b: Seq<u8>, off: int, nodes: int) -> Result<(VertexRecord, int), AssetError> {
    match sp_floats(b, off, 9) {
        Err(e) => Err(e),
        Ok((f, o1)) => match sp_u16(b, o1) {
            Err(e) => Err(e),
            Ok((j, o2)) => if j >= nodes {
                Err(AssetError::Invalid)
            } else {
                Ok(
                    (
                        VertexRecord {
                            position: (f[0], f[1], f[2]),
                            normal: (f[3], f[4], f[5]),
                            color: (f[6], f[7], f[8]),
                            joint: j as usize,
                        },
                        o2,
                    ),
                )
            },
        },
    }
}

pub open spec fn vertex_check(v: VertexRecord) -> FloatCheck {
    FloatCheck::VertexColor { color: v.color }
}

pub open spec fn sp_vertices(b: Seq<u8>, off: int, k: nat, nodes: int) -> (
    Seq<FloatCheck>,
    Result<(Seq<VertexRecord>, int), AssetError>,
)
    decreases k,
{
    if k == 0 {
        (Seq::empty(), Ok((Seq::empty(), off)))
    } else {
        let (cs, r) = sp_vertices(b, off, (k - 1) as nat, nodes);
        match r {
            Err(e) => (cs, Err(e)),
            Ok((vs, o)) => match sp_vertex(b, o, nodes) {
                Err(e) => (cs, Err(e)),
                Ok((v, o2)) => (cs.push(vertex_check(v)), Ok((vs.push(v), o2))),
            },
        }
    }
}

/// `k` triangle indices, each naming a vertex.
pub open spec fn sp_indices(b: Seq<u8>, off: int, k: nat, nv: int) -> Result<(Seq<u32>, int), AssetError>
    decreases k,
{
    if k == 0 {
        Ok((Seq::empty(), off))
    } else {
        match sp_indices(b, off, (k - 1) as nat, nv) {
            Err(e) => Err(e),
            Ok((is, o)) => match sp_u32(b, o) {
                Err(e) => Err(e),
                Ok((i, o2)) => if i >= nv {
                    Err(AssetError::Invalid)
                } else {
                    Ok((is.push(i), o2))
                },
            },
        }
    }
}

/// The first `k` keys of a channel: a time, then `width` values.
pub open spec fn sp_keys(
    b: Seq<u8>,
    off: int,
    k: nat,
    width: nat,
    duration: u32,
    rotation: bool,
) -> (Seq<FloatCheck>, Result<(Seq<u32>, Seq<u32>, int), AssetError>)
    decreases k,
{
    if k == 0 {
        (Seq::empty(), Ok((Seq::empty(), Seq::empty(), off)))
    } else {
        let (cs, r) = sp_keys(b, off, (k - 1) as nat, width, duration, rotation);
        match r {
            Err(e) => (cs, Err(e)),
            Ok((ts, vs, o)) => match sp_float(b, o) {
                Err(e) => (cs, Err(e)),
                Ok((t, o1)) => {
                    let timed = cs.push(
                        FloatCheck::KeyTime {
                            time: t,
                            duration,
                            previous: if ts.len() == 0 { None } else { Some(ts.last()) },
                        },
                    );
                    match sp_floats(b, o1, width) {
                        Err(e) => (timed, Err(e)),
                        Ok((vals, o2)) => (
                            if rotation {
                                timed.push(
                                    FloatCheck::KeyRotation {
                                        rotation: (vals[0], vals[1], vals[2], vals[3]),
                                    },
                                )
                            } else {
                                timed
                            },
                            Ok((ts.push(t), vs + vals, o2)),
                        ),
                    }
                },
            },
        }
    }
}

pub open spec fn path_of(p: u8) -> Option<ChannelPath> {
    if p == 0 {
        Some(ChannelPath::Translation)
    } else if p == 1 {
        Some(ChannelPath::Rotation)
    } else if p == 2 {
        Some(ChannelPath::Scale)
    } else {
        None
    }
}

pub open spec fn width_of(path: ChannelPath) -> nat {
    if path == ChannelPath::Rotation { 4 } else { 3 }
}

/// One channel: node, path, key count (added to the clip total so far),
/// then its keys.
pub open spec fn sp_channel(b: Seq<u8>, off: int, nodes: int, total: int, duration: u32) -> (
    Seq<FloatCheck>,
    Result<(ChannelModel, int, int), AssetError>,
) {
    match sp_u16(b, off) {
        Err(e) => (Seq::empty(), Err(e)),
        Ok((node, o1)) => match sp_u8(b, o1) {
            Err(e) => (Seq::empty(), Err(e)),
            Ok((p, o2)) => match path_of(p) {
                None => (Seq::empty(), Err(AssetError::Invalid)),
                Some(path) => match sp_u16(b, o2) {
                    Err(e) => (Seq::empty(), Err(e)),
                    Ok((keys, o3)) => if node >= nodes || keys == 0 || total + keys > MAX_TOTAL_KEYS {
                        (Seq::empty(), Err(AssetError::Limit))
                    } else {
                        let (cs, r) = sp_keys(
                            b,
                            o3,
                            keys as nat,
                            width_of(path),
                            duration,
                            path == ChannelPath::Rotation,
                        );
                        match r {
                            Err(e) => (cs, Err(e)),
                            Ok((ts, vs, o4)) => (
                                cs,
                                Ok(
                                    (
                                        ChannelModel {
                                            node: node as usize,
                                            path,
                                            times: ts,
                                            values: vs,
                                        },
                                        total + keys,
                                        o4,
                                    ),
                                ),
                            ),
                        }
                    },
                },
            },
        },
    }
}

pub open spec fn sp_channels(
    b: Seq<u8>,
    off: int,
    k: nat,
    nodes: int,
    total: int,
    duration: u32,
) -> (Seq<FloatCheck>, Result<(Seq<ChannelModel>, int, int), AssetError>)
    decreases k,
{
    if k == 0 {
        (Seq::empty(), Ok((Seq::empty(), total, off)))
    } else {
        let (cs, r) = sp_channels(b, off, (k - 1) as nat, nodes, total, duration);
        match r {
            Err(e) => (cs, Err(e)),
            Ok((chs, t, o)) => {
                let (cs2, r2) = sp_channel(b, o, nodes, t, duration);
                match r2 {
                    Err(e) => (cs + cs2, Err(e)),
                    Ok((ch, t2, o2)) => (cs + cs2, Ok((chs.push(ch), t2, o2))),
                }
            },
        }
    }
}

/// One clip: name, duration, channel count (at most three per node), then
/// the channels.
pub open spec fn sp_clip(b: Seq<u8>, off: int, nodes: int, total: int) -> (
    Seq<FloatCheck>,
    Result<(ClipModel, int, int), AssetError>,
) {
    match sp_name(b, off) {
        Err(e) => (Seq::empty(), Err(e)),
        Ok((name, o1)) => match sp_float(b, o1) {
            Err(e) => (Seq::empty(), Err(e)),
            Ok((duration, o2)) => match sp_count(b, o2, nodes * 3) {
                Err(e) => (Seq::empty(), Err(e)),
                Ok((count, o3)) => {
                    let (cs, r) = sp_channels(b, o3, count as nat, nodes, total, duration);
                    let checks = seq![FloatCheck::ClipDuration { duration }] + cs;
                    match r {
                        Err(e) => (checks, Err(e)),
                        Ok((chs, t, o4)) => (
                            checks,
                            Ok((ClipModel { name, duration, channels: chs }, t, o4)),
                        ),
                    }
                },
            },
        },
    }
}

pub open spec fn sp_clips(b: Seq<u8>, off: int, k: nat, nodes: int) -> (
    Seq<FloatCheck>,
    Result<(Seq<ClipModel>, int, int), AssetError>,
)
    decreases k,
{
    if k == 0 {
        (Seq::empty(), Ok((Seq::empty(), 0, off)))
    } else {
        let (cs, r) = sp_clips(b, off, (k - 1) as nat, nodes);
        match r {
            Err(e) => (cs, Err(e)),
            Ok((clips, t, o)) => {
                let (cs2, r2) = sp_clip(b, o, nodes, t);
                match r2 {
                    Err(e) => (cs + cs2, Err(e)),
                    Ok((c, t2, o2)) => (cs + cs2, Ok((clips.push(c), t2, o2))),
                }
            },
        }
    }
}

/// The magic that opens every asset: `P3M1`.
pub open spec fn magic() -> Seq<u8> {
    seq![0x50u8, 0x33u8, 0x4du8, 0x31u8]
}

/// A whole asset: magic, the four counts, nodes, vertices, indices, clips,
/// and nothing after them.
pub open spec fn sp_decode(b: Seq<u8>) -> (Seq<FloatCheck>, Result<LayoutModel, AssetError>) {
    if b.len() > MAX_ASSET_BYTES {
        (Seq::empty(), Err(AssetError::Limit))
    } else if b.len() < 4 {
        (Seq::empty(), Err(AssetError::Truncated))
    } else if b.subrange(0, 4) != magic() {
        (Seq::empty(), Err(AssetError::Format))
    } else {
        match sp_count(b, 4, MAX_NODES as int) {
            Err(e) => (Seq::empty(), Err(e)),
            Ok((nodes, o1)) => match sp_count(b, o1, MAX_VERTICES as int) {
                Err(e) => (Seq::empty(), Err(e)),
                Ok((nv, o2)) => match sp_count(b, o2, MAX_INDICES as int) {
                    Err(e) => (Seq::empty(), Err(e)),
                    Ok((ni, o3)) => match sp_count(b, o3, MAX_CLIPS as int) {
                        Err(e) => (Seq::empty(), Err(e)),
                        Ok((nc, o4)) => if nodes == 0 || ni % 3 != 0 {
                            (Seq::empty(), Err(AssetError::Invalid))
                        } else {
                            sp_body(b, o4, nodes as int, nv as int, ni as int, nc as int)
                        },
                    },
                },
            },
        }
    }
}

/// Everything after the header.
pub open spec fn sp_body(b: Seq<u8>, off: int, nodes: int, nv: int, ni: int, nc: int) -> (
    Seq<FloatCheck>,
    Result<LayoutModel, AssetError>,
) {
    let (c1, r1) = sp_nodes(b, off, nodes as nat);
    match r1 {
        Err(e) => (c1, Err(e)),
        Ok((names, ns, o1)) => {
            let (c2, r2) = sp_vertices(b, o1, nv as nat, nodes);
            match r2 {
                Err(e) => (c1 + c2, Err(e)),
                Ok((vs, o2)) => match sp_indices(b, o2, ni as nat, nv) {
                    Err(e) => (c1 + c2, Err(e)),
                    Ok((is, o3)) => {
                        let (c3, r3) = sp_clips(b, o3, nc as nat, nodes);
                        match r3 {
                            Err(e) => (c1 + c2 + c3, Err(e)),
                            Ok((clips, t, o4)) => (
                                c1 + c2 + c3,
                                if o4 != b.len() {
                                    Err(AssetError::Format)
                                } else {
                                    Ok(
                                        LayoutModel {
                                            names,
                                            nodes: ns,
                                            vertices: vs,
                                            indices: is,
                                            clips,
                                        },
                                    )
                                },
                            ),
                        }
                    },
                },
            }
        },
    }
}

// ---------------------------------------------------------------------------
// Once a read fails, every longer run of reads fails the same way.

proof fn lemma_floats_stuck(b: Seq<u8>, off: int, i: nat, k: nat)
    requires
        i <= k,
        sp_floats(b, off, i) is Err,
    ensures
        sp_floats(b, off, k) == sp_floats(b, off, i),
    decreases k,
{
    if k > i {
        lemma_floats_stuck(b, off, i, (k - 1) as nat);
    }
}

proof fn lemma_floats_len(b: Seq<u8>, off: int, k: nat)
    ensures
        sp_floats(b, off, k) matches Ok((vs, end)) ==> vs.len() == k && end >= off,
    decreases k,
{
    if k > 0 {
        lemma_floats_len(b, off, (k - 1) as nat);
    }
}

proof fn lemma_nodes_stuck(b: Seq<u8>, off: int, i: nat, k: nat)
    requires
        i <= k,
        sp_nodes(b, off, i).1 is Err,
    ensures
        sp_nodes(b, off, k) == sp_nodes(b, off, i),
    decreases k,
{
    if k > i {
        lemma_nodes_stuck(b, off, i, (k - 1) as nat);
    }
}

proof fn lemma_vertices_stuck(b: Seq<u8>, off: int, i: nat, k: nat, nodes: int)
    requires
        i <= k,
        sp_vertices(b, off, i, nodes).1 is Err,
    ensures
        sp_vertices(b, off, k, nodes) == sp_vertices(b, off, i, nodes),
    decreases k,
{
    if k > i {
        lemma_vertices_stuck(b, off, i, (k - 1) as nat, nodes);
    }
}

proof fn lemma_indices_stuck(b: Seq<u8>, off: int, i: nat, k: nat, nv: int)
    requires
        i <= k,
        sp_indices(b, off, i, nv) is Err,
    ensures
        sp_indices(b, off, k, nv) == sp_indices(b, off, i, nv),
    decreases k,
{
    if k > i {
        lemma_indices_stuck(b, off, i, (k - 1) as nat, nv);
    }
}

proof fn lemma_keys_stuck(
    b: Seq<u8>,
    off: int,
    i: nat,
    k: nat,
    width: nat,
    duration: u32,
    rotation: bool,
)
    requires
        i <= k,
        sp_keys(b, off, i, width, duration, rotation).1 is Err,
    ensures
        sp_keys(b, off, k, width, duration, rotation) == sp_keys(b, off, i, width, duration, rotation),
    decreases k,
{
    if k > i {
        lemma_keys_stuck(b, off, i, (k - 1) as nat, width, duration, rotation);
    }
}

proof fn lemma_channels_stuck(
    b: Seq<u8>,
    off: int,
    i: nat,
    k: nat,
    nodes: int,
    total: int,
    duration: u32,
)
    requires
        i <= k,
        sp_channels(b, off, i, nodes, total, duration).1 is Err,
    ensures
        sp_channels(b, off, k, nodes, total, duration) == sp_channels(b, off, i, nodes, total, duration),
    decreases k,
{
    if k > i {
        lemma_channels_stuck(b, off, i, (k - 1) as nat, nodes, total, duration);
    }
}

proof fn lemma_clips_stuck(b: Seq<u8>, off: int, i: nat, k: nat, nodes: int)
    requires
        i <= k,
        sp_clips(b, off, i, nodes).1 is Err,
    ensures
        sp_clips(b, off, k, nodes) == sp_clips(b, off, i, nodes),
    decreases k,
{
    if k > i {
        lemma_clips_stuck(b, off, i, (k - 1) as nat, nodes);
    }
}

// ---------------------------------------------------------------------------
// The reads, in code.

fn read_floats(r: &mut Reader, k: usize) -> (res: Result<Vec<u32>, AssetError>)
    requires
        old(r).pos() <= old(r).data().len(),
    ensures
        final(r).data() == old(r).data(),
        final(r).pos() <= final(r).data().len(),
        match sp_floats(old(r).data(), old(r).pos(), k as nat) {
            Ok((vs, end)) => res matches Ok(v) && v@ == vs && final(r).pos() == end,
            Err(e) => res matches Err(x) && x == e,
        },
{
    let ghost b = old(r).data();
    let ghost start = old(r).pos();
    let mut out: Vec<u32> = Vec::new();
    let mut failure: Option<AssetError> = None;
    let mut i: usize = 0;
    while i < k
        invariant_except_break
            r.data() == b,
            r.pos() <= r.data().len(),
            i <= k,
            failure is None,
            sp_floats(b, start, i as nat) == Ok::<(Seq<u32>, int), AssetError>((out@, r.pos())),
        ensures
            r.data() == b,
            r.pos() <= r.data().len(),
            match failure {
                None => i == k && sp_floats(b, start, k as nat) == Ok::<(Seq<u32>, int), AssetError>(
                    (out@, r.pos()),
                ),
                Some(e) => sp_floats(b, start, k as nat) == Err::<(Seq<u32>, int), AssetError>(e),
            },
        decreases k - i,
    {
        match r.float_bits() {
            Ok(v) => {
                out.push(v);
                i = i + 1;
            },
            Err(e) => {
                proof {
                    lemma_floats_stuck(b, start, (i + 1) as nat, k as nat);
                }
                failure = Some(e);
                break;
            },
        }
    }
    match failure {
        Some(e) => Err(e),
        None => Ok(out),
    }
}

fn read_node(r: &mut Reader, index: usize) -> (res: Result<(String, NodeRecord), AssetError>)
    requires
        old(r).pos() <= old(r).data().len(),
    ensures
        final(r).data() == old(r).data(),
        final(r).pos() <= final(r).data().len(),
        match sp_node(old(r).data(), old(r).pos(), index as int) {
            Ok((name, n, end)) => res matches Ok((s, m)) && s@ == name && m == n && final(r).pos()
                == end,
            Err(e) => res matches Err(x) && x == e,
        },
{
    let name = r.name()?;
    let p: u32 = r.u32()?;
    if p != u32::MAX && p as usize >= index {
        return Err(AssetError::Invalid);
    }
    let ghost mid = r.pos();
    let f = read_floats(r, 10)?;
    proof {
        lemma_floats_len(old(r).data(), mid, 10);
    }
    let n = NodeRecord {
        parent: p,
        translation: (f[0], f[1], f[2]),
        rotation: (f[3], f[4], f[5], f[6]),
        scale: (f[7], f[8], f[9]),
    };
    Ok((name, n))
}

fn node_check_of(n: &NodeRecord) -> (c: FloatCheck)
    ensures
        c == node_check(*n),
{
    FloatCheck::NodeTransform { rotation: n.rotation, scale: n.scale }
}

fn read_nodes(r: &mut Reader, k: usize, checks: &mut Vec<FloatCheck>) -> (res: Result<
    (Vec<String>, Vec<NodeRecord>),
    AssetError,
>)
    requires
        old(r).pos() <= old(r).data().len(),
    ensures
        final(r).data() == old(r).data(),
        final(r).pos() <= final(r).data().len(),
        final(checks)@ == old(checks)@ + sp_nodes(old(r).data(), old(r).pos(), k as nat).0,
        match sp_nodes(old(r).data(), old(r).pos(), k as nat).1 {
            Ok((names, nodes, end)) => res matches Ok((ns, ds)) && names_view(ns@) == names
                && ds@ == nodes && final(r).pos() == end,
            Err(e) => res matches Err(x) && x == e,
        },
{
    let ghost b = old(r).data();
    let ghost start = old(r).pos();
    let ghost before = old(checks)@;
    let mut names: Vec<String> = Vec::new();
    let mut nodes: Vec<NodeRecord> = Vec::new();
    let mut failure: Option<AssetError> = None;
    let mut i: usize = 0;
    assert(checks@ =~= before + sp_nodes(b, start, 0).0);
    assert(names_view(names@) =~= Seq::<Seq<char>>::empty());
    assert(nodes@ =~= Seq::<NodeRecord>::empty());
    while i < k
        invariant_except_break
            r.data() == b,
            r.pos() <= r.data().len(),
            i <= k,
            failure is None,
            checks@ == before + sp_nodes(b, start, i as nat).0,
            sp_nodes(b, start, i as nat).1 == Ok::<(Seq<Seq<char>>, Seq<NodeRecord>, int), AssetError>(
                (names_view(names@), nodes@, r.pos()),
            ),
        ensures
            r.data() == b,
            r.pos() <= r.data().len(),
            checks@ == before + sp_nodes(b, start, k as nat).0,
            match failure {
                None => sp_nodes(b, start, k as nat).1 == Ok::<(Seq<Seq<char>>, Seq<NodeRecord>, int), AssetError>(
                    (names_view(names@), nodes@, r.pos()),
                ),
                Some(e) => sp_nodes(b, start, k as nat).1 == Err::<(Seq<Seq<char>>, Seq<NodeRecord>, int), AssetError>(e),
            },
        decreases k - i,
    {
        match read_node(r, i) {
            Ok((name, n)) => {
                let c = node_check_of(&n);
                let ghost old_names = names@;
                checks.push(c);
                names.push(name);
                nodes.push(n);
                proof {
                    assert(names_view(names@) =~= names_view(old_names).push(names@.last()@));
                    assert(checks@ =~= before + sp_nodes(b, start, (i + 1) as nat).0);
                }
                i = i + 1;
            },
            Err(e) => {
                proof {
                    lemma_nodes_stuck(b, start, (i + 1) as nat, k as nat);
                }
                failure = Some(e);
                break;
            },
        }
    }
    match failure {
        Some(e) => Err(e),
        None => Ok((names, nodes)),
    }
}


fn read_vertex(r: &mut Reader, nodes: usize) -> (res: Result<VertexRecord, AssetError>)
    requires
        old(r).pos() <= old(r).data().len(),
    ensures
        final(r).data() == old(r).data(),
        final(r).pos() <= final(r).data().len(),
        match sp_vertex(old(r).data(), old(r).pos(), nodes as int) {
            Ok((v, end)) => res matches Ok(w) && w == v && final(r).pos() == end,
            Err(e) => res matches Err(x) && x == e,
        },
{
    let ghost start = r.pos();
    let f = read_floats(r, 9)?;
    proof {
        lemma_floats_len(old(r).data(), start, 9);
    }
    let joint: u16 = r.u16()?;
    if joint as usize >= nodes {
        return Err(AssetError::Invalid);
    }
    Ok(
        VertexRecord {
            position: (f[0], f[1], f[2]),
            normal: (f[3], f[4], f[5]),
            color: (f[6], f[7], f[8]),
            joint: joint as usize,
        },
    )
}

fn read_vertices(r: &mut Reader, k: usize, nodes: usize, checks: &mut Vec<FloatCheck>) -> (res:
    Result<Vec<VertexRecord>, AssetError>)
    requires
        old(r).pos() <= old(r).data().len(),
    ensures
        final(r).data() == old(r).data(),
        final(r).pos() <= final(r).data().len(),
        final(checks)@ == old(checks)@ + sp_vertices(
            old(r).data(),
            old(r).pos(),
            k as nat,
            nodes as int,
        ).0,
        match sp_vertices(old(r).data(), old(r).pos(), k as nat, nodes as int).1 {
            Ok((vs, end)) => res matches Ok(ws) && ws@ == vs && final(r).pos() == end,
            Err(e) => res matches Err(x) && x == e,
        },
{
    let ghost b = old(r).data();
    let ghost start = old(r).pos();
    let ghost before = old(checks)@;
    let mut vertices: Vec<VertexRecord> = Vec::new();
    let mut failure: Option<AssetError> = None;
    let mut i: usize = 0;
    assert(checks@ =~= before + sp_vertices(b, start, 0, nodes as int).0);
    assert(vertices@ =~= Seq::<VertexRecord>::empty());
    while i < k
        invariant_except_break
            r.data() == b,
            r.pos() <= r.data().len(),
            i <= k,
            failure is None,
            checks@ == before + sp_vertices(b, start, i as nat, nodes as int).0,
            sp_vertices(b, start, i as nat, nodes as int).1 == Ok::<(Seq<VertexRecord>, int), AssetError>(
                (vertices@, r.pos()),
            ),
        ensures
            r.data() == b,
            r.pos() <= r.data().len(),
            checks@ == before + sp_vertices(b, start, k as nat, nodes as int).0,
            match failure {
                None => sp_vertices(b, start, k as nat, nodes as int).1 == Ok::<(Seq<VertexRecord>, int), AssetError>(
                    (vertices@, r.pos()),
                ),
                Some(e) => sp_vertices(b, start, k as nat, nodes as int).1 == Err::<(Seq<VertexRecord>, int), AssetError>(e),
            },
        decreases k - i,
    {
        match read_vertex(r, nodes) {
            Ok(v) => {
                checks.push(FloatCheck::VertexColor { color: v.color });
                vertices.push(v);
                proof {
                    assert(checks@ =~= before + sp_vertices(b, start, (i + 1) as nat, nodes as int).0);
                }
                i = i + 1;
            },
            Err(e) => {
                proof {
                    lemma_vertices_stuck(b, start, (i + 1) as nat, k as nat, nodes as int);
                }
                failure = Some(e);
                break;
            },
        }
    }
    match failure {
        Some(e) => Err(e),
        None => Ok(vertices),
    }
}

fn read_indices(r: &mut Reader, k: usize, nv: usize) -> (res: Result<Vec<u32>, AssetError>)
    requires
        old(r).pos() <= old(r).data().len(),
    ensures
        final(r).data() == old(r).data(),
        final(r).pos() <= final(r).data().len(),
        match sp_indices(old(r).data(), old(r).pos(), k as nat, nv as int) {
            Ok((is, end)) => res matches Ok(v) && v@ == is && final(r).pos() == end,
            Err(e) => res matches Err(x) && x == e,
        },
{
    let ghost b = old(r).data();
    let ghost start = old(r).pos();
    let mut out: Vec<u32> = Vec::new();
    let mut failure: Option<AssetError> = None;
    let mut i: usize = 0;
    while i < k
        invariant_except_break
            r.data() == b,
            r.pos() <= r.data().len(),
            i <= k,
            failure is None,
            sp_indices(b, start, i as nat, nv as int) == Ok::<(Seq<u32>, int), AssetError>((out@, r.pos())),
        ensures
            r.data() == b,
            r.pos() <= r.data().len(),
            match failure {
                None => sp_indices(b, start, k as nat, nv as int) == Ok::<(Seq<u32>, int), AssetError>(
                    (out@, r.pos()),
                ),
                Some(e) => sp_indices(b, start, k as nat, nv as int) == Err::<(Seq<u32>, int), AssetError>(e),
            },
        decreases k - i,
    {
        let read = r.u32();
        let step: Result<u32, AssetError> = match read {
            Ok(index) => if index as usize >= nv {
                Err(AssetError::Invalid)
            } else {
                Ok(index)
            },
            Err(e) => Err(e),
        };
        match step {
            Ok(index) => {
                out.push(index);
                i = i + 1;
            },
            Err(e) => {
                proof {
                    lemma_indices_stuck(b, start, (i + 1) as nat, k as nat, nv as int);
                }
                failure = Some(e);
                break;
            },
        }
    }
    match failure {
        Some(e) => Err(e),
        None => Ok(out),
    }
}


fn read_keys(
    r: &mut Reader,
    k: usize,
    width: usize,
    duration: u32,
    rotation: bool,
    checks: &mut Vec<FloatCheck>,
) -> (res: Result<(Vec<u32>, Vec<u32>), AssetError>)
    requires
        old(r).pos() <= old(r).data().len(),
        rotation ==> width == 4,
    ensures
        final(r).data() == old(r).data(),
        final(r).pos() <= final(r).data().len(),
        final(checks)@ == old(checks)@ + sp_keys(
            old(r).data(),
            old(r).pos(),
            k as nat,
            width as nat,
            duration,
            rotation,
        ).0,
        match sp_keys(old(r).data(), old(r).pos(), k as nat, width as nat, duration, rotation).1 {
            Ok((ts, vs, end)) => res matches Ok((t, v)) && t@ == ts && v@ == vs && final(r).pos()
                == end,
            Err(e) => res matches Err(x) && x == e,
        },
{
    let ghost b = old(r).data();
    let ghost start = old(r).pos();
    let ghost before = old(checks)@;
    let mut times: Vec<u32> = Vec::new();
    let mut values: Vec<u32> = Vec::new();
    let mut failure: Option<AssetError> = None;
    let mut i: usize = 0;
    assert(checks@ =~= before + sp_keys(b, start, 0, width as nat, duration, rotation).0);
    assert(times@ =~= Seq::<u32>::empty());
    assert(values@ =~= Seq::<u32>::empty());
    while i < k
        invariant_except_break
            r.data() == b,
            r.pos() <= r.data().len(),
            i <= k,
            rotation ==> width == 4,
            failure is None,
            checks@ == before + sp_keys(b, start, i as nat, width as nat, duration, rotation).0,
            sp_keys(b, start, i as nat, width as nat, duration, rotation).1 == Ok::<
                (Seq<u32>, Seq<u32>, int),
                AssetError,
            >((times@, values@, r.pos())),
        ensures
            r.data() == b,
            r.pos() <= r.data().len(),
            checks@ == before + sp_keys(b, start, k as nat, width as nat, duration, rotation).0,
            match failure {
                None => sp_keys(b, start, k as nat, width as nat, duration, rotation).1 == Ok::<
                    (Seq<u32>, Seq<u32>, int),
                    AssetError,
                >((times@, values@, r.pos())),
                Some(e) => sp_keys(b, start, k as nat, width as nat, duration, rotation).1 == Err::<
                    (Seq<u32>, Seq<u32>, int),
                    AssetError,
                >(e),
            },
        decreases k - i,
    {
        let t: u32 = match r.float_bits() {
            Ok(t) => t,
            Err(e) => {
                proof {
                    lemma_keys_stuck(b, start, (i + 1) as nat, k as nat, width as nat, duration, rotation);
                }
                failure = Some(e);
                break;
            },
        };
        let previous: Option<u32> = if times.len() == 0 {
            None
        } else {
            Some(times[times.len() - 1])
        };
        checks.push(FloatCheck::KeyTime { time: t, duration, previous });
        let ghost mid = r.pos();
        let mut vals = match read_floats(r, width) {
            Ok(v) => v,
            Err(e) => {
                proof {
                    assert(checks@ =~= before + sp_keys(b, start, (i + 1) as nat, width as nat, duration, rotation).0);
                    lemma_keys_stuck(b, start, (i + 1) as nat, k as nat, width as nat, duration, rotation);
                }
                failure = Some(e);
                break;
            },
        };
        proof {
            lemma_floats_len(b, mid, width as nat);
        }
        if rotation {
            checks.push(FloatCheck::KeyRotation { rotation: (vals[0], vals[1], vals[2], vals[3]) });
        }
        times.push(t);
        let ghost vs = vals@;
        values.append(&mut vals);
        proof {
            assert(checks@ =~= before + sp_keys(b, start, (i + 1) as nat, width as nat, duration, rotation).0);
        }
        i = i + 1;
    }
    match failure {
        Some(e) => Err(e),
        None => Ok((times, values)),
    }
}

fn read_channel(
    r: &mut Reader,
    nodes: usize,
    total: usize,
    duration: u32,
    checks: &mut Vec<FloatCheck>,
) -> (res: Result<(ChannelRecord, usize), AssetError>)
    requires
        old(r).pos() <= old(r).data().len(),
        total <= MAX_TOTAL_KEYS,
    ensures
        final(r).data() == old(r).data(),
        final(r).pos() <= final(r).data().len(),
        final(checks)@ == old(checks)@ + sp_channel(
            old(r).data(),
            old(r).pos(),
            nodes as int,
            total as int,
            duration,
        ).0,
        match sp_channel(old(r).data(), old(r).pos(), nodes as int, total as int, duration).1 {
            Ok((ch, t, end)) => res matches Ok((c, u)) && c@ == ch && u == t && u <= MAX_TOTAL_KEYS
                && final(r).pos() == end,
            Err(e) => res matches Err(x) && x == e,
        },
{
    let node: u16 = r.u16()?;
    let p: u8 = r.u8()?;
    let path = if p == 0 {
        ChannelPath::Translation
    } else if p == 1 {
        ChannelPath::Rotation
    } else if p == 2 {
        ChannelPath::Scale
    } else {
        return Err(AssetError::Invalid);
    };
    let keys: u16 = r.u16()?;
    let next_total: usize = total + keys as usize;
    if node as usize >= nodes || keys == 0 || next_total > MAX_TOTAL_KEYS {
        return Err(AssetError::Limit);
    }
    let rotation: bool = match path {
        ChannelPath::Rotation => true,
        _ => false,
    };
    let width: usize = if rotation { 4 } else { 3 };
    let (times, values) = read_keys(r, keys as usize, width, duration, rotation, checks)?;
    Ok((ChannelRecord { node: node as usize, path, times, values }, next_total))
}

fn read_channels(
    r: &mut Reader,
    k: usize,
    nodes: usize,
    total: usize,
    duration: u32,
    checks: &mut Vec<FloatCheck>,
) -> (res: Result<(Vec<ChannelRecord>, usize), AssetError>)
    requires
        old(r).pos() <= old(r).data().len(),
        total <= MAX_TOTAL_KEYS,
    ensures
        final(r).data() == old(r).data(),
        final(r).pos() <= final(r).data().len(),
        final(checks)@ == old(checks)@ + sp_channels(
            old(r).data(),
            old(r).pos(),
            k as nat,
            nodes as int,
            total as int,
            duration,
        ).0,
        match sp_channels(old(r).data(), old(r).pos(), k as nat, nodes as int, total as int, duration).1 {
            Ok((chs, t, end)) => res matches Ok((c, u)) && channels_view(c@) == chs && u == t && u
                <= MAX_TOTAL_KEYS && final(r).pos() == end,
            Err(e) => res matches Err(x) && x == e,
        },
{
    let ghost b = old(r).data();
    let ghost start = old(r).pos();
    let ghost before = old(checks)@;
    let mut channels: Vec<ChannelRecord> = Vec::new();
    let mut running: usize = total;
    let mut failure: Option<AssetError> = None;
    let mut i: usize = 0;
    assert(checks@ =~= before + sp_channels(b, start, 0, nodes as int, total as int, duration).0);
    assert(channels_view(channels@) =~= Seq::<ChannelModel>::empty());
    while i < k
        invariant_except_break
            r.data() == b,
            r.pos() <= r.data().len(),
            i <= k,
            failure is None,
            running <= MAX_TOTAL_KEYS,
            checks@ == before + sp_channels(b, start, i as nat, nodes as int, total as int, duration).0,
            sp_channels(b, start, i as nat, nodes as int, total as int, duration).1 == Ok::<
                (Seq<ChannelModel>, int, int),
                AssetError,
            >((channels_view(channels@), running as int, r.pos())),
        ensures
            r.data() == b,
            r.pos() <= r.data().len(),
            running <= MAX_TOTAL_KEYS,
            checks@ == before + sp_channels(b, start, k as nat, nodes as int, total as int, duration).0,
            match failure {
                None => sp_channels(b, start, k as nat, nodes as int, total as int, duration).1 == Ok::<
                    (Seq<ChannelModel>, int, int),
                    AssetError,
                >((channels_view(channels@), running as int, r.pos())),
                Some(e) => sp_channels(b, start, k as nat, nodes as int, total as int, duration).1
                    == Err::<(Seq<ChannelModel>, int, int), AssetError>(e),
            },
        decreases k - i,
    {
        let ghost checks_before = checks@;
        match read_channel(r, nodes, running, duration, checks) {
            Ok((c, t)) => {
                let ghost old_channels = channels@;
                channels.push(c);
                running = t;
                proof {
                    assert(channels_view(channels@) =~= channels_view(old_channels).push(channels@.last()@));
                    assert(checks@ =~= before + sp_channels(b, start, (i + 1) as nat, nodes as int, total as int, duration).0);
                }
                i = i + 1;
            },
            Err(e) => {
                proof {
                    assert(checks@ =~= before + sp_channels(b, start, (i + 1) as nat, nodes as int, total as int, duration).0);
                    lemma_channels_stuck(b, start, (i + 1) as nat, k as nat, nodes as int, total as int, duration);
                }
                failure = Some(e);
                break;
            },
        }
    }
    match failure {
        Some(e) => Err(e),
        None => Ok((channels, running)),
    }
}

fn read_clip(r: &mut Reader, nodes: usize, total: usize, checks: &mut Vec<FloatCheck>) -> (res:
    Result<(ClipRecord, usize), AssetError>)
    requires
        old(r).pos() <= old(r).data().len(),
        total <= MAX_TOTAL_KEYS,
        nodes <= MAX_NODES,
    ensures
        final(r).data() == old(r).data(),
        final(r).pos() <= final(r).data().len(),
        final(checks)@ == old(checks)@ + sp_clip(old(r).data(), old(r).pos(), nodes as int, total as int).0,
        match sp_clip(old(r).data(), old(r).pos(), nodes as int, total as int).1 {
            Ok((c, t, end)) => res matches Ok((d, u)) && d@ == c && u == t && u <= MAX_TOTAL_KEYS
                && final(r).pos() == end,
            Err(e) => res matches Err(x) && x == e,
        },
{
    let ghost before = old(checks)@;
    let name = r.name()?;
    let duration: u32 = r.float_bits()?;
    let count: usize = r.count(nodes * 3)?;
    checks.push(FloatCheck::ClipDuration { duration });
    let ghost pushed = checks@;
    let (channels, t) = match read_channels(r, count, nodes, total, duration, checks) {
        Ok(x) => x,
        Err(e) => {
            assert(checks@ =~= before + sp_clip(old(r).data(), old(r).pos(), nodes as int, total as int).0);
            return Err(e);
        },
    };
    assert(checks@ =~= before + sp_clip(old(r).data(), old(r).pos(), nodes as int, total as int).0);
    Ok((ClipRecord { name, duration, channels }, t))
}

fn read_clips(r: &mut Reader, k: usize, nodes: usize, checks: &mut Vec<FloatCheck>) -> (res:
    Result<Vec<ClipRecord>, AssetError>)
    requires
        old(r).pos() <= old(r).data().len(),
        nodes <= MAX_NODES,
    ensures
        final(r).data() == old(r).data(),
        final(r).pos() <= final(r).data().len(),
        final(checks)@ == old(checks)@ + sp_clips(old(r).data(), old(r).pos(), k as nat, nodes as int).0,
        match sp_clips(old(r).data(), old(r).pos(), k as nat, nodes as int).1 {
            Ok((cs, t, end)) => res matches Ok(c) && clips_view(c@) == cs && final(r).pos() == end,
            Err(e) => res matches Err(x) && x == e,
        },
{
    let ghost b = old(r).data();
    let ghost start = old(r).pos();
    let ghost before = old(checks)@;
    let mut clips: Vec<ClipRecord> = Vec::new();
    let mut running: usize = 0;
    let mut failure: Option<AssetError> = None;
    let mut i: usize = 0;
    assert(checks@ =~= before + sp_clips(b, start, 0, nodes as int).0);
    assert(clips_view(clips@) =~= Seq::<ClipModel>::empty());
    while i < k
        invariant_except_break
            r.data() == b,
            r.pos() <= r.data().len(),
            i <= k,
            nodes <= MAX_NODES,
            failure is None,
            running <= MAX_TOTAL_KEYS,
            checks@ == before + sp_clips(b, start, i as nat, nodes as int).0,
            sp_clips(b, start, i as nat, nodes as int).1 == Ok::<(Seq<ClipModel>, int, int), AssetError>(
                (clips_view(clips@), running as int, r.pos()),
            ),
        ensures
            r.data() == b,
            r.pos() <= r.data().len(),
            checks@ == before + sp_clips(b, start, k as nat, nodes as int).0,
            match failure {
                None => sp_clips(b, start, k as nat, nodes as int).1 == Ok::<(Seq<ClipModel>, int, int), AssetError>(
                    (clips_view(clips@), running as int, r.pos()),
                ),
                Some(e) => sp_clips(b, start, k as nat, nodes as int).1 == Err::<(Seq<ClipModel>, int, int), AssetError>(e),
            },
        decreases k - i,
    {
        match read_clip(r, nodes, running, checks) {
            Ok((c, t)) => {
                let ghost old_clips = clips@;
                clips.push(c);
                running = t;
                proof {
                    assert(clips_view(clips@) =~= clips_view(old_clips).push(clips@.last()@));
                    assert(checks@ =~= before + sp_clips(b, start, (i + 1) as nat, nodes as int).0);
                }
                i = i + 1;
            },
            Err(e) => {
                proof {
                    assert(checks@ =~= before + sp_clips(b, start, (i + 1) as nat, nodes as int).0);
                    lemma_clips_stuck(b, start, (i + 1) as nat, k as nat, nodes as int);
                }
                failure = Some(e);
                break;
            },
        }
    }
    match failure {
        Some(e) => Err(e),
        None => Ok(clips),
    }
}


/// What `decode_layout` found: the float rules the decode reached, in order,
/// and the outcome if they all hold.
pub struct MeshScan {
    pub checks: Vec<FloatCheck>,
    pub outcome: Result<MeshLayout, AssetError>,
}

pub open spec fn outcome_view(r: Result<MeshLayout, AssetError>) -> Result<LayoutModel, AssetError> {
    match r {
        Ok(l) => Ok(l@),
        Err(e) => Err(e),
    }
}

/// Decodes an asset's byte layout. A caller may decode an external asset, so
/// every count is bounded before anything is allocated for it.
#[verifier::rlimit(50)]
pub fn decode_layout(bytes: &[u8]) -> (scan: MeshScan)
    ensures
        (scan.checks@, outcome_view(scan.outcome)) == sp_decode(bytes@),
{
    let mut checks: Vec<FloatCheck> = Vec::new();
    if bytes.len() > MAX_ASSET_BYTES {
        return MeshScan { checks, outcome: Err(AssetError::Limit) };
    }
    let mut r = Reader::new(bytes);
    let head = match r.take(4) {
        Ok(h) => h,
        Err(e) => return MeshScan { checks, outcome: Err(e) },
    };
    if !(head[0] == 0x50 && head[1] == 0x33 && head[2] == 0x4d && head[3] == 0x31) {
        proof {
            if bytes@.subrange(0, 4) == magic() {
                assert(bytes@.subrange(0, 4)[0] == 0x50);
            }
        }
        return MeshScan { checks, outcome: Err(AssetError::Format) };
    }
    assert(bytes@.subrange(0, 4) =~= magic());
    let nodes: usize = match r.count(MAX_NODES) {
        Ok(n) => n,
        Err(e) => return MeshScan { checks, outcome: Err(e) },
    };
    let nv: usize = match r.count(MAX_VERTICES) {
        Ok(n) => n,
        Err(e) => return MeshScan { checks, outcome: Err(e) },
    };
    let ni: usize = match r.count(MAX_INDICES) {
        Ok(n) => n,
        Err(e) => return MeshScan { checks, outcome: Err(e) },
    };
    let nc: usize = match r.count(MAX_CLIPS) {
        Ok(n) => n,
        Err(e) => return MeshScan { checks, outcome: Err(e) },
    };
    if nodes == 0 || ni % 3 != 0 {
        return MeshScan { checks, outcome: Err(AssetError::Invalid) };
    }
    let ghost o4 = r.pos();
    let ghost b = bytes@;
    let (names, node_records) = match read_nodes(&mut r, nodes, &mut checks) {
        Ok(x) => x,
        Err(e) => {
            assert(checks@ =~= sp_body(b, o4, nodes as int, nv as int, ni as int, nc as int).0);
            return MeshScan { checks, outcome: Err(e) };
        },
    };
    let ghost c1 = checks@;
    let vertices = match read_vertices(&mut r, nv, nodes, &mut checks) {
        Ok(v) => v,
        Err(e) => {
            assert(checks@ =~= sp_body(b, o4, nodes as int, nv as int, ni as int, nc as int).0);
            return MeshScan { checks, outcome: Err(e) };
        },
    };
    let indices = match read_indices(&mut r, ni, nv) {
        Ok(v) => v,
        Err(e) => {
            assert(checks@ =~= sp_body(b, o4, nodes as int, nv as int, ni as int, nc as int).0);
            return MeshScan { checks, outcome: Err(e) };
        },
    };
    let clips = match read_clips(&mut r, nc, nodes, &mut checks) {
        Ok(v) => v,
        Err(e) => {
            assert(checks@ =~= sp_body(b, o4, nodes as int, nv as int, ni as int, nc as int).0);
            return MeshScan { checks, outcome: Err(e) };
        },
    };
    assert(checks@ =~= sp_body(b, o4, nodes as int, nv as int, ni as int, nc as int).0);
    if r.offset() != bytes.len() {
        return MeshScan { checks, outcome: Err(AssetError::Format) };
    }
    MeshScan {
        checks,
        outcome: Ok(MeshLayout { names, nodes: node_records, vertices, indices, clips }),
    }
}

impl MeshScan {
    /// The decode's result once each float rule has its verdict, in order: a
    /// rule that fails makes the asset invalid, since the decode stops there.
    pub fn finish(self, verdicts: &[bool]) -> (r: Result<MeshLayout, AssetError>)
        requires
            verdicts@.len() == self.checks@.len(),
        ensures
            (exists|i: int| 0 <= i < verdicts@.len() && !verdicts@[i]) ==> r == Err::<
                MeshLayout,
                AssetError,
            >(AssetError::Invalid),
            (forall|i: int| 0 <= i < verdicts@.len() ==> verdicts@[i]) ==> r == self.outcome,
    {
        let mut i: usize = 0;
        while i < verdicts.len()
            invariant
                i <= verdicts@.len(),
                forall|j: int| 0 <= j < i ==> verdicts@[j],
            decreases verdicts@.len() - i,
        {
            if !verdicts[i] {
                return Err(AssetError::Invalid);
            }
            i = i + 1;
        }
        self.outcome
    }
}

impl MeshLayout {
    /// The index of the first clip called `name`.
    pub fn clip(&self, name: &str) -> (r: Option<usize>)
        ensures
            r matches Some(i) ==> i < self.clips@.len() && self.clips@[i as int].name@ == name@
                && forall|j: int| 0 <= j < i ==> self.clips@[j].name@ != name@,
            r is None ==> forall|j: int| 0 <= j < self.clips@.len() ==> self.clips@[j].name@ != name@,
    {
        let mut i: usize = 0;
        while i < self.clips.len()
            invariant
                i <= self.clips@.len(),
                forall|j: int| 0 <= j < i ==> self.clips@[j].name@ != name@,
            decreases self.clips@.len() - i,
        {
            if str_equals(self.clips[i].name.as_str(), name) {
                return Some(i);
            }
            i = i + 1;
        }
        None
    }
}


/// A node's parent as the skeleton keeps it: `usize::MAX` for a root.
pub open spec fn spec_parent(n: NodeRecord) -> usize {
    if n.parent == u32::MAX {
        usize::MAX
    } else {
        n.parent as usize
    }
}

impl MeshLayout {
    /// Each node's parent, `usize::MAX` for a root.
    pub fn parents(&self) -> (p: Vec<usize>)
        ensures
            p@.len() == self.nodes@.len(),
            forall|i: int| 0 <= i < p@.len() ==> p@[i] == spec_parent(#[trigger] self.nodes@[i]),
    {
        let mut p: Vec<usize> = Vec::new();
        let mut i: usize = 0;
        while i < self.nodes.len()
            invariant
                i <= self.nodes@.len(),
                p@.len() == i,
                forall|j: int| 0 <= j < i ==> p@[j] == spec_parent(#[trigger] self.nodes@[j]),
            decreases self.nodes@.len() - i,
        {
            let parent: u32 = self.nodes[i].parent;
            p.push(if parent == 0xffff_ffff { usize::MAX } else { parent as usize });
            i = i + 1;
        }
        p
    }

    /// The order node transforms are evaluated in: node order, which puts
    /// every parent before its children.
    pub fn evaluation_order(&self) -> (o: Vec<usize>)
        ensures
            o@.len() == self.nodes@.len(),
            forall|i: int| 0 <= i < o@.len() ==> #[trigger] o@[i] == i,
    {
        let mut o: Vec<usize> = Vec::new();
        let mut i: usize = 0;
        while i < self.nodes.len()
            invariant
                i <= self.nodes@.len(),
                o@.len() == i,
                forall|j: int| 0 <= j < i ==> #[trigger] o@[j] == j,
            decreases self.nodes@.len() - i,
        {
            o.push(i);
            i = i + 1;
        }
        o
    }
}

// ---------------------------------------------------------------------------
// What a successful decode guarantees.

/// A channel's keys: at least one, each with its full set of values.
pub open spec fn channel_wf(c: ChannelModel, nodes: int) -> bool {
    &&& c.node < nodes
    &&& c.times.len() >= 1
    &&& c.values.len() == c.times.len() * width_of(c.path)
}

pub open spec fn channel_keys(chs: Seq<ChannelModel>) -> int
    decreases chs.len(),
{
    if chs.len() == 0 {
        0
    } else {
        channel_keys(chs.drop_last()) + chs.last().times.len()
    }
}

pub open spec fn clip_keys(clips: Seq<ClipModel>) -> int
    decreases clips.len(),
{
    if clips.len() == 0 {
        0
    } else {
        clip_keys(clips.drop_last()) + channel_keys(clips.last().channels)
    }
}

/// The structural rules of a mesh: a skeleton whose parents come first,
/// vertices bound to its nodes, whole triangles over the vertices, and
/// clips animating its nodes within the key budget.
pub open spec fn layout_wf(l: LayoutModel) -> bool {
    &&& 1 <= l.nodes.len() <= MAX_NODES
    &&& l.names.len() == l.nodes.len()
    &&& forall|i: int|
        0 <= i < l.nodes.len() ==> (#[trigger] l.nodes[i]).parent == u32::MAX || l.nodes[i].parent
            < i
    &&& l.vertices.len() <= MAX_VERTICES
    &&& forall|i: int| 0 <= i < l.vertices.len() ==> (#[trigger] l.vertices[i]).joint < l.nodes.len()
    &&& l.indices.len() <= MAX_INDICES
    &&& l.indices.len() % 3 == 0
    &&& forall|i: int| 0 <= i < l.indices.len() ==> (#[trigger] l.indices[i]) < l.vertices.len()
    &&& l.clips.len() <= MAX_CLIPS
    &&& forall|i: int|
        0 <= i < l.clips.len() ==> (#[trigger] l.clips[i]).channels.len() <= 3 * l.nodes.len()
    &&& forall|i: int, j: int|
        0 <= i < l.clips.len() && 0 <= j < l.clips[i].channels.len() ==> channel_wf(
            #[trigger] l.clips[i].channels[j],
            l.nodes.len() as int,
        )
    &&& clip_keys(l.clips) <= MAX_TOTAL_KEYS
}

proof fn lemma_nodes_wf(b: Seq<u8>, off: int, k: nat)
    ensures
        sp_nodes(b, off, k).1 matches Ok((names, ns, end)) ==> {
            &&& names.len() == k
            &&& ns.len() == k
            &&& end >= off
            &&& forall|i: int| 0 <= i < k ==> (#[trigger] ns[i]).parent == u32::MAX || ns[i].parent < i
        },
    decreases k,
{
    if k > 0 {
        lemma_nodes_wf(b, off, (k - 1) as nat);
        if let Ok((names, ns, o)) = sp_nodes(b, off, (k - 1) as nat).1 {
            if let Ok((name, n, o2)) = sp_node(b, o, k - 1) {
                assert(ns.push(n)[k - 1] == n);
                assert forall|i: int| 0 <= i < k - 1 implies ns.push(n)[i] == ns[i] by {}
                lemma_node_offset(b, o, k - 1);
            }
        }
    }
}

proof fn lemma_node_offset(b: Seq<u8>, off: int, index: int)
    ensures
        sp_node(b, off, index) matches Ok((name, n, end)) ==> end >= off,
{
    if let Ok((name, o1)) = sp_name(b, off) {
        if let Ok((p, o2)) = sp_u32(b, o1) {
            lemma_floats_len(b, o2, 10);
        }
    }
}

proof fn lemma_vertices_wf(b: Seq<u8>, off: int, k: nat, nodes: int)
    ensures
        sp_vertices(b, off, k, nodes).1 matches Ok((vs, end)) ==> {
            &&& vs.len() == k
            &&& forall|i: int| 0 <= i < k ==> (#[trigger] vs[i]).joint < nodes
        },
    decreases k,
{
    if k > 0 {
        lemma_vertices_wf(b, off, (k - 1) as nat, nodes);
        if let Ok((vs, o)) = sp_vertices(b, off, (k - 1) as nat, nodes).1 {
            if let Ok((v, o2)) = sp_vertex(b, o, nodes) {
                assert forall|i: int| 0 <= i < k - 1 implies vs.push(v)[i] == vs[i] by {}
            }
        }
    }
}

proof fn lemma_indices_wf(b: Seq<u8>, off: int, k: nat, nv: int)
    ensures
        sp_indices(b, off, k, nv) matches Ok((is, end)) ==> {
            &&& is.len() == k
            &&& forall|i: int| 0 <= i < k ==> (#[trigger] is[i]) < nv
        },
    decreases k,
{
    if k > 0 {
        lemma_indices_wf(b, off, (k - 1) as nat, nv);
        if let Ok((is, o)) = sp_indices(b, off, (k - 1) as nat, nv) {
            if let Ok((x, o2)) = sp_u32(b, o) {
                assert forall|i: int| 0 <= i < k - 1 implies is.push(x)[i] == is[i] by {}
            }
        }
    }
}

proof fn lemma_mul_succ(k: int, w: int)
    ensures
        (k - 1) * w + w == k * w,
{
    assert((k - 1) * w + w == k * w) by (nonlinear_arith);
}

proof fn lemma_keys_wf(b: Seq<u8>, off: int, k: nat, width: nat, duration: u32, rotation: bool)
    ensures
        sp_keys(b, off, k, width, duration, rotation).1 matches Ok((ts, vs, end)) ==> ts.len() == k
            && vs.len() == k * width,
    decreases k,
{
    if k > 0 {
        lemma_keys_wf(b, off, (k - 1) as nat, width, duration, rotation);
        let prev = sp_keys(b, off, (k - 1) as nat, width, duration, rotation).1;
        if let Ok((ts, vs, o)) = prev {
            if let Ok((t, o1)) = sp_float(b, o) {
                lemma_floats_len(b, o1, width);
                lemma_mul_succ(k as int, width as int);
                if let Ok((vals, o2)) = sp_floats(b, o1, width) {
                    assert(sp_keys(b, off, k, width, duration, rotation).1 == Ok::<
                        (Seq<u32>, Seq<u32>, int),
                        AssetError,
                    >((ts.push(t), vs + vals, o2)));
                }
            }
        }
    } else {
        assert(0 * width == 0) by (nonlinear_arith);
    }
}

proof fn lemma_channels_wf(b: Seq<u8>, off: int, k: nat, nodes: int, total: int, duration: u32)
    ensures
        sp_channels(b, off, k, nodes, total, duration).1 matches Ok((chs, t, end)) ==> {
            &&& chs.len() == k
            &&& forall|j: int| 0 <= j < k ==> channel_wf(#[trigger] chs[j], nodes)
            &&& t == total + channel_keys(chs)
            &&& (k > 0 ==> t <= MAX_TOTAL_KEYS)
        },
    decreases k,
{
    if k > 0 {
        lemma_channels_wf(b, off, (k - 1) as nat, nodes, total, duration);
        if let Ok((chs, t, o)) = sp_channels(b, off, (k - 1) as nat, nodes, total, duration).1 {
            if let Ok((ch, t2, o2)) = sp_channel(b, o, nodes, t, duration).1 {
                if let Ok((node, o1)) = sp_u16(b, o) {
                    if let Ok((p, o2)) = sp_u8(b, o1) {
                        if let Some(path) = path_of(p) {
                            if let Ok((keys, o3)) = sp_u16(b, o2) {
                                lemma_keys_wf(b, o3, keys as nat, width_of(path), duration, path == ChannelPath::Rotation);
                            }
                        }
                    }
                }
                let pushed = chs.push(ch);
                assert(pushed.drop_last() =~= chs);
                assert forall|j: int| 0 <= j < k - 1 implies pushed[j] == chs[j] by {}
            }
        }
    }
}

proof fn lemma_clips_wf(b: Seq<u8>, off: int, k: nat, nodes: int)
    ensures
        sp_clips(b, off, k, nodes).1 matches Ok((cs, t, end)) ==> {
            &&& cs.len() == k
            &&& forall|i: int| 0 <= i < k ==> (#[trigger] cs[i]).channels.len() <= 3 * nodes
            &&& forall|i: int, j: int|
                0 <= i < k && 0 <= j < cs[i].channels.len() ==> channel_wf(
                    #[trigger] cs[i].channels[j],
                    nodes,
                )
            &&& t == clip_keys(cs)
            &&& t <= MAX_TOTAL_KEYS
        },
    decreases k,
{
    if k > 0 {
        lemma_clips_wf(b, off, (k - 1) as nat, nodes);
        if let Ok((cs, t, o)) = sp_clips(b, off, (k - 1) as nat, nodes).1 {
            if let Ok((c, t2, o2)) = sp_clip(b, o, nodes, t).1 {
                if let Ok((name, o1)) = sp_name(b, o) {
                    if let Ok((duration, o2)) = sp_float(b, o1) {
                        if let Ok((count, o3)) = sp_count(b, o2, nodes * 3) {
                            lemma_channels_wf(b, o3, count as nat, nodes, t, duration);
                        }
                    }
                }
                let pushed = cs.push(c);
                assert(pushed.drop_last() =~= cs);
                assert forall|i: int| 0 <= i < k - 1 implies pushed[i] == cs[i] by {}
            }
        }
    }
}

/// Every layout the decode accepts follows the format's structural rules.
pub proof fn law_decoded_layout_is_well_formed(bytes: Seq<u8>)
    ensures
        sp_decode(bytes).1 matches Ok(l) ==> layout_wf(l),
{
    if let Ok(l) = sp_decode(bytes).1 {
        let (nodes, o1) = sp_count(bytes, 4, MAX_NODES as int)->Ok_0;
        let (nv, o2) = sp_count(bytes, o1, MAX_VERTICES as int)->Ok_0;
        let (ni, o3) = sp_count(bytes, o2, MAX_INDICES as int)->Ok_0;
        let (nc, o4) = sp_count(bytes, o3, MAX_CLIPS as int)->Ok_0;
        lemma_nodes_wf(bytes, o4, nodes as nat);
        let (names, ns, p1) = sp_nodes(bytes, o4, nodes as nat).1->Ok_0;
        lemma_vertices_wf(bytes, p1, nv as nat, nodes as int);
        let (vs, p2) = sp_vertices(bytes, p1, nv as nat, nodes as int).1->Ok_0;
        lemma_indices_wf(bytes, p2, ni as nat, nv as int);
        let (is, p3) = sp_indices(bytes, p2, ni as nat, nv as int)->Ok_0;
        lemma_clips_wf(bytes, p3, nc as nat, nodes as int);
    }
}

/// An asset that does not open with the magic, or is too large, is refused
/// before anything else is read.
pub proof fn law_magic_and_size_come_first(bytes: Seq<u8>)
    ensures
        bytes.len() > MAX_ASSET_BYTES ==> sp_decode(bytes) == (Seq::<FloatCheck>::empty(), Err::<
            LayoutModel,
            AssetError,
        >(AssetError::Limit)),
        bytes.len() <= MAX_ASSET_BYTES && bytes.len() >= 4 && bytes.subrange(0, 4) != magic()
            ==> sp_decode(bytes) == (Seq::<FloatCheck>::empty(), Err::<LayoutModel, AssetError>(
            AssetError::Format,
        )),
{
}



/// In a decoded layout, evaluating nodes in order reaches every parent
/// before its children: a node's parent is a root marker or an earlier node.
pub proof fn law_parents_come_first(l: LayoutModel, i: int)
    requires
        layout_wf(l),
        0 <= i < l.nodes.len(),
    ensures
        spec_parent(l.nodes[i]) == usize::MAX || spec_parent(l.nodes[i]) < i,
{
}


proof fn lemma_floats_bytes(b: Seq<u8>, off: int, k: nat)
    ensures
        sp_floats(b, off, k) matches Ok((vs, end)) ==> {
            &&& vs.len() == k
            &&& end == off + 4 * k
            &&& forall|i: int| 0 <= i < k ==> #[trigger] vs[i] == le32(b, off + 4 * i)
        },
    decreases k,
{
    if k > 0 {
        lemma_floats_bytes(b, off, (k - 1) as nat);
        if let Ok((vs, o)) = sp_floats(b, off, (k - 1) as nat) {
            if let Ok((v, o2)) = sp_float(b, o) {
                let pushed = vs.push(v);
                assert forall|i: int| 0 <= i < k implies #[trigger] pushed[i] == le32(
                    b,
                    off + 4 * i,
                ) by {
                    if i < k - 1 {
                        assert(pushed[i] == vs[i]);
                    }
                }
            }
        }
    }
}

/// The vertex record `o` bytes into `b`: nine floats (position, normal,
/// color, three each, in that order) and a `u16` joint, 38 bytes in all.
pub open spec fn vertex_at(b: Seq<u8>, o: int) -> VertexRecord {
    VertexRecord {
        position: (le32(b, o), le32(b, o + 4), le32(b, o + 8)),
        normal: (le32(b, o + 12), le32(b, o + 16), le32(b, o + 20)),
        color: (le32(b, o + 24), le32(b, o + 28), le32(b, o + 32)),
        joint: le16(b, o + 36) as usize,
    }
}

/// Every decoded vertex is the bytes of its record: the `i`-th vertex is
/// read from the 38 bytes at `off + 38 * i`, position first, then normal,
/// then color, then the joint.
pub proof fn law_vertices_come_from_their_bytes(b: Seq<u8>, off: int, k: nat, nodes: int)
    ensures
        sp_vertices(b, off, k, nodes).1 matches Ok((vs, end)) ==> {
            &&& vs.len() == k
            &&& end == off + 38 * k
            &&& forall|i: int| 0 <= i < k ==> #[trigger] vs[i] == vertex_at(b, off + 38 * i)
        },
    decreases k,
{
    if k > 0 {
        law_vertices_come_from_their_bytes(b, off, (k - 1) as nat, nodes);
        if let Ok((vs, o)) = sp_vertices(b, off, (k - 1) as nat, nodes).1 {
            lemma_floats_bytes(b, o, 9);
            if let Ok((v, o2)) = sp_vertex(b, o, nodes) {
                let pushed = vs.push(v);
                assert(v == vertex_at(b, o));
                assert forall|i: int| 0 <= i < k implies #[trigger] pushed[i] == vertex_at(
                    b,
                    off + 38 * i,
                ) by {
                    if i < k - 1 {
                        assert(pushed[i] == vs[i]);
                    }
                }
            }
        }
    }
}


/// The node record `o` bytes into `b`:
/// the `u16` length and the name, then the parent, then translation,
/// rotation `(x, y, z, w)` and scale, as floats.
pub open spec fn node_at(b: Seq<u8>, o: int) -> NodeRecord {
    let at = o + 2 + le16(b, o);
    NodeRecord {
        parent: le32(b, at),
        translation: (le32(b, at + 4), le32(b, at + 8), le32(b, at + 12)),
        rotation: (le32(b, at + 16), le32(b, at + 20), le32(b, at + 24), le32(b, at + 28)),
        scale: (le32(b, at + 32), le32(b, at + 36), le32(b, at + 40)),
    }
}

/// Every decoded node is the bytes of its record: after its name come the
/// parent and the translation, rotation and scale floats, in that order,
/// and the next record starts right after them.
pub proof fn law_nodes_come_from_their_bytes(b: Seq<u8>, off: int, index: int)
    ensures
        sp_node(b, off, index) matches Ok((name, n, end)) ==> {
            &&& n == node_at(b, off)
            &&& end == off + 2 + le16(b, off) + 44
        },
{
    if let Ok((name, o1)) = sp_name(b, off) {
        if let Ok((p, o2)) = sp_u32(b, o1) {
            lemma_floats_bytes(b, o2, 10);
        }
    }
}


/// Every triangle index is the little-endian `u32` at its place, four bytes
/// apart, and names one of the vertices.
pub proof fn law_indices_come_from_their_bytes(b: Seq<u8>, off: int, k: nat, nv: int)
    ensures
        sp_indices(b, off, k, nv) matches Ok((is, end)) ==> {
            &&& is.len() == k
            &&& end == off + 4 * k
            &&& forall|i: int| 0 <= i < k ==> #[trigger] is[i] == le32(b, off + 4 * i) && is[i] < nv
        },
    decreases k,
{
    if k > 0 {
        law_indices_come_from_their_bytes(b, off, (k - 1) as nat, nv);
        if let Ok((is, o)) = sp_indices(b, off, (k - 1) as nat, nv) {
            if let Ok((v, o2)) = sp_u32(b, o) {
                if v < nv {
                    let pushed = is.push(v);
                    assert forall|i: int| 0 <= i < k implies #[trigger] pushed[i] == le32(
                        b,
                        off + 4 * i,
                    ) && pushed[i] < nv by {
                        if i < k - 1 {
                            assert(pushed[i] == is[i]);
                        }
                    }
                }
            }
        }
    }
}

/// Every key of a channel is its bytes: key `i` starts `(1 + width)` floats
/// after key `i - 1`, with its time first and then its `width` values, so
/// value `j` of key `i` is the `j`-th float after that time.
pub proof fn law_keys_come_from_their_bytes(
    b: Seq<u8>,
    off: int,
    k: nat,
    width: nat,
    duration: u32,
    rotation: bool,
)
    ensures
        sp_keys(b, off, k, width, duration, rotation).1 matches Ok((ts, vs, end)) ==> {
            let stride = 4 * (1 + width);
            &&& ts.len() == k
            &&& vs.len() == k * width
            &&& end == off + stride * k
            &&& forall|i: int| 0 <= i < k ==> #[trigger] ts[i] == le32(b, off + stride * i)
            &&& forall|i: int, j: int|
                0 <= i < k && 0 <= j < width ==> #[trigger] vs[i * width + j] == le32(
                    b,
                    off + stride * i + 4 + 4 * j,
                )
        },
    decreases k,
{
    if k == 0 {
        assert(k * width == 0);
    }
    if k > 0 {
        let km = (k - 1) as nat;
        let stride = 4 * (1 + width);
        law_keys_come_from_their_bytes(b, off, km, width, duration, rotation);
        if let Ok((ts, vs, o)) = sp_keys(b, off, km, width, duration, rotation).1 {
            if let Ok((t, o1)) = sp_float(b, o) {
                lemma_floats_bytes(b, o1, width);
                if let Ok((vals, o2)) = sp_floats(b, o1, width) {
                    let ts2 = ts.push(t);
                    let vs2 = vs + vals;
                    assert(o == off + stride * km);
                    assert(stride * km + stride == stride * k) by (nonlinear_arith)
                        requires
                            k == km + 1,
                    ;
                    assert(km * width + width == k * width) by (nonlinear_arith)
                        requires
                            k == km + 1,
                    ;
                    assert forall|i: int| 0 <= i < k implies #[trigger] ts2[i] == le32(
                        b,
                        off + stride * i,
                    ) by {
                        if i < km {
                            assert(ts2[i] == ts[i]);
                        }
                    }
                    assert forall|i: int, j: int| 0 <= i < k && 0 <= j < width implies #[trigger] vs2[i
                        * width + j] == le32(b, off + stride * i + 4 + 4 * j) by {
                        if i < km {
                            assert(i * width + j < km * width) by (nonlinear_arith)
                                requires
                                    0 <= i < km,
                                    0 <= j < width,
                            ;
                            assert(0 <= i * width + j) by (nonlinear_arith)
                                requires
                                    0 <= i,
                                    0 <= j,
                            ;
                            assert(vs2[i * width + j] == vs[i * width + j]);
                        } else {
                            assert(i == km);
                            assert(vs2[i * width + j] == vals[j]);
                        }
                    }
                    assert(ts2.len() == k);
                    assert(vs2.len() == k * width);
                    assert(o1 == o + 4);
                    assert(o2 == o1 + 4 * width);
                    assert(o2 == off + stride * k);
                    assert(sp_keys(b, off, k, width, duration, rotation).1 == Ok::<
                        (Seq<u32>, Seq<u32>, int),
                        AssetError,
                    >((ts2, vs2, o2)));
                }
            }
        }
    }
}


/// Every decoded channel is its bytes: the node (`u16`), the path byte, the
/// key count (`u16`, added to the clip's total), then the keys, each a time
/// and the path's values.
pub proof fn law_channel_comes_from_its_bytes(
    b: Seq<u8>,
    off: int,
    nodes: int,
    total: int,
    duration: u32,
)
    ensures
        sp_channel(b, off, nodes, total, duration).1 matches Ok((ch, t2, end)) ==> {
            let keys = le16(b, off + 3) as int;
            let width = width_of(ch.path);
            let stride = 4 * (1 + width);
            &&& ch.node == le16(b, off) as usize
            &&& path_of(b[off + 2]) == Some(ch.path)
            &&& t2 == total + keys
            &&& ch.times.len() == keys
            &&& end == off + 5 + stride * keys
            &&& forall|i: int| 0 <= i < keys ==> #[trigger] ch.times[i] == le32(b, off + 5 + stride * i)
            &&& forall|i: int, j: int|
                0 <= i < keys && 0 <= j < width ==> #[trigger] ch.values[i * width + j] == le32(
                    b,
                    off + 5 + stride * i + 4 + 4 * j,
                )
        },
{
    if let Ok((node, o1)) = sp_u16(b, off) {
        if let Ok((p, o2)) = sp_u8(b, o1) {
            if let Some(path) = path_of(p) {
                if let Ok((keys, o3)) = sp_u16(b, o2) {
                    law_keys_come_from_their_bytes(
                        b,
                        o3,
                        keys as nat,
                        width_of(path),
                        duration,
                        path == ChannelPath::Rotation,
                    );
                }
            }
        }
    }
}


/// The header's four counts, little-endian `u32`s right after the magic, are
/// the numbers of nodes, vertices, triangle indices and clips, in that order,
/// and the first node starts right after them.
pub proof fn law_counts_come_from_the_header(bytes: Seq<u8>)
    ensures
        sp_decode(bytes).1 matches Ok(l) ==> {
            &&& l.nodes.len() == le32(bytes, 4)
            &&& l.vertices.len() == le32(bytes, 8)
            &&& l.indices.len() == le32(bytes, 12)
            &&& l.clips.len() == le32(bytes, 16)
            &&& sp_nodes(bytes, 20, le32(bytes, 4) as nat).1 matches Ok((names, ns, end)) && ns
                == l.nodes && names == l.names
        },
{
    if let Ok(l) = sp_decode(bytes).1 {
        let (nodes, o1) = sp_count(bytes, 4, MAX_NODES as int)->Ok_0;
        let (nv, o2) = sp_count(bytes, o1, MAX_VERTICES as int)->Ok_0;
        let (ni, o3) = sp_count(bytes, o2, MAX_INDICES as int)->Ok_0;
        let (nc, o4) = sp_count(bytes, o3, MAX_CLIPS as int)->Ok_0;
        lemma_nodes_wf(bytes, o4, nodes as nat);
        let (names, ns, p1) = sp_nodes(bytes, o4, nodes as nat).1->Ok_0;
        lemma_vertices_wf(bytes, p1, nv as nat, nodes as int);
        let (vs, p2) = sp_vertices(bytes, p1, nv as nat, nodes as int).1->Ok_0;
        law_indices_come_from_their_bytes(bytes, p2, ni as nat, nv as int);
        let (is, p3) = sp_indices(bytes, p2, ni as nat, nv as int)->Ok_0;
        lemma_clips_wf(bytes, p3, nc as nat, nodes as int);
    }
}

} // verus!
