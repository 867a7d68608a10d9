//! Import a wavefront OBJ file.
//!
//! The importer is line-oriented and streaming: each line is tokenized, the
//! directives `v`, `vn`, `vt`, `f` and `o` update the parse state, comments
//! and unknown directives are skipped. Face corners are `v/t/n` index
//! triples; positive indices are one-based, negative indices count from the
//! end of the list defined so far. Each distinct triple is deduplicated into
//! a per-object vertex buffer; triangles are emitted as they stand,
//! quadrilaterals are split into two triangles fanned from a reflex corner
//! when the concavity test finds one.

use crate::bits::ONE_BITS;
use crate::intermediate::{
    IntermediateMat, IntermediateMesh, IntermediateNode, IntermediateScene, VertexData,
};
use crate::ops::ScalarOps;
use crate::text::{sep_fields, spec_parse_i32, ws_tokens};
use vstd::prelude::*;

verus! {

/// One corner of a face directive: optional vertex, texture and normal
/// indices.
#[derive(Debug, Clone, Copy, PartialEq, Eq, Structural, Hash)]
pub struct FaceDef {
    pub v: Option<i32>,
    pub t: Option<i32>,
    pub n: Option<i32>,
}

/// What a corner token denotes: the first three `/`-separated fields read
/// as integers; a corner without a readable vertex index denotes nothing.
pub open spec fn spec_face_def(s: Seq<u8>) -> FaceDef {
    let fs = sep_fields(s, 47);
    let a = spec_parse_i32(fs[0]);
    let b = if fs.len() >= 2 {
        spec_parse_i32(fs[1])
    } else {
        None
    };
    let c = if fs.len() >= 3 {
        spec_parse_i32(fs[2])
    } else {
        None
    };
    if a is None {
        FaceDef { v: None, t: None, n: None }
    } else {
        FaceDef { v: a, t: b, n: c }
    }
}

/// One one-based or relative index resolved against a list of `len`
/// entries: a negative index counts back from the end of the list, a
/// positive one is converted from one-based to zero-based. The result may
/// still lie outside the list; consumers treat such a reference as absent.
pub open spec fn spec_resolve_index(x: Option<i32>, len: int) -> Option<i32> {
    match x {
        None => None,
        Some(i) => Some(
            if i < 0 {
                (len + i) as i32
            } else {
                (i - 1) as i32
            },
        ),
    }
}

/// `spec_face_def` with every index resolved.
pub open spec fn spec_sanitized_face(f: FaceDef, nv: int, nt: int, nn: int) -> FaceDef {
    FaceDef {
        v: spec_resolve_index(f.v, nv),
        t: spec_resolve_index(f.t, nt),
        n: spec_resolve_index(f.n, nn),
    }
}

impl FaceDef {
    /// Read one corner token.
    pub fn new(definition: &[u8]) -> (r: FaceDef)
        ensures
            r == spec_face_def(definition@),
    {
        let fs = crate::text::split_fields(definition, 47);
        proof {
            assert(fs.deep_view().len() >= 1);
            assert(fs.deep_view()[0] == fs@[0]@);
        }
        let a = crate::text::parse_i32(fs[0].as_slice());
        let b = if fs.len() >= 2 {
            proof {
                assert(fs.deep_view()[1] == fs@[1]@);
            }
            crate::text::parse_i32(fs[1].as_slice())
        } else {
            None
        };
        let c = if fs.len() >= 3 {
            proof {
                assert(fs.deep_view()[2] == fs@[2]@);
            }
            crate::text::parse_i32(fs[2].as_slice())
        } else {
            None
        };
        if a.is_none() {
            FaceDef { v: None, t: None, n: None }
        } else {
            FaceDef { v: a, t: b, n: c }
        }
    }

    /// Resolve the corner's indices against lists of the given lengths:
    /// negative indices are relative to the end of the list defined so far,
    /// positive ones are one-based.
    pub fn sanitize(self, nv: usize, nt: usize, nn: usize) -> (r: FaceDef)
        requires
            nv <= 0x7fff_ffff,
            nt <= 0x7fff_ffff,
            nn <= 0x7fff_ffff,
        ensures
            r == spec_sanitized_face(self, nv as int, nt as int, nn as int),
    {
        FaceDef {
            v: resolve_index(self.v, nv),
            t: resolve_index(self.t, nt),
            n: resolve_index(self.n, nn),
        }
    }
}

/// Exec form of [`spec_resolve_index`].
fn resolve_index(x: Option<i32>, len: usize) -> (r: Option<i32>)
    requires
        len <= 0x7fff_ffff,
    ensures
        r == spec_resolve_index(x, len as int),
{
    match x {
        None => None,
        Some(i) => {
            if i < 0 {
                Some((len as i32) + i)
            } else {
                Some(i - 1)
            }
        },
    }
}

/// A face-list entry: one corner, or the end of a face directive.
#[derive(Debug, Clone, Copy, PartialEq, Eq, Structural)]
pub enum FaceMarker {
    Def(FaceDef),
    End,
}

/// Accumulated parse state of one OBJ file: the three attribute lists,
/// the flushed named objects in order of first appearance, and the object
/// currently being accumulated. Positions, normals and texture coordinates
/// are single-precision bit patterns.
#[derive(Debug)]
pub struct WFObjectState {
    pub vert_list: Vec<[u32; 3]>,
    pub normal_list: Vec<[u32; 3]>,
    pub tex_list: Vec<[u32; 3]>,
    pub obj_face_list: Vec<(Vec<u8>, Vec<FaceMarker>)>,
    pub last_name: Vec<u8>,
    pub last_face_list: Vec<FaceMarker>,
}

/// The name given to geometry that arrives before any `o` directive, and
/// to an `o` directive without a name token.
pub open spec fn unknown_name_bytes() -> Seq<u8> {
    seq![85u8, 110u8, 107u8, 110u8, 111u8, 119u8, 110u8]
}

/// Exec form of [`unknown_name_bytes`].
pub fn unknown_name() -> (r: Vec<u8>)
    ensures
        r@ == unknown_name_bytes(),
{
    let r: Vec<u8> = vec![85u8, 110u8, 107u8, 110u8, 111u8, 119u8, 110u8];
    proof {
        assert(r@ =~= unknown_name_bytes());
    }
    r
}

/// The views of an association list's entries.
pub open spec fn obj_map_view(m: Seq<(Vec<u8>, Vec<FaceMarker>)>) -> Seq<
    (Seq<u8>, Seq<FaceMarker>),
> {
    m.map_values(|p: (Vec<u8>, Vec<FaceMarker>)| (p.0@, p.1@))
}

/// Bind `k` to `v` in the association list: replace the value at the first
/// entry carrying `k`, or append a new entry when no entry carries `k`.
pub open spec fn assoc_set(
    m: Seq<(Seq<u8>, Seq<FaceMarker>)>,
    k: Seq<u8>,
    v: Seq<FaceMarker>,
) -> Seq<(Seq<u8>, Seq<FaceMarker>)>
    decreases m.len(),
{
    if m.len() == 0 {
        seq![(k, v)]
    } else if m[0].0 == k {
        seq![(k, v)] + m.drop_first()
    } else {
        seq![m[0]] + assoc_set(m.drop_first(), k, v)
    }
}

/// When the first entry carrying `k` stands at `i`, binding `k` updates
/// that entry in place.
pub proof fn lemma_assoc_set_update(
    m: Seq<(Seq<u8>, Seq<FaceMarker>)>,
    k: Seq<u8>,
    v: Seq<FaceMarker>,
    i: int,
)
    requires
        0 <= i < m.len(),
        m[i].0 == k,
        forall|j: int| 0 <= j < i ==> m[j].0 != k,
    ensures
        assoc_set(m, k, v) =~= m.update(i, (k, v)),
    decreases i,
{
    if i == 0 {
        assert(assoc_set(m, k, v) =~= m.update(0, (k, v)));
    } else {
        let t = m.drop_first();
        lemma_assoc_set_update(t, k, v, i - 1);
        assert(seq![m[0]] + t.update(i - 1, (k, v)) =~= m.update(i, (k, v)));
    }
}

/// When no entry carries `k`, binding `k` appends a new entry.
pub proof fn lemma_assoc_set_push(m: Seq<(Seq<u8>, Seq<FaceMarker>)>, k: Seq<u8>, v: Seq<FaceMarker>)
    requires
        forall|j: int| 0 <= j < m.len() ==> m[j].0 != k,
    ensures
        assoc_set(m, k, v) =~= m.push((k, v)),
    decreases m.len(),
{
    if m.len() == 0 {
    } else {
        lemma_assoc_set_push(m.drop_first(), k, v);
        assert(seq![m[0]] + m.drop_first().push((k, v)) =~= m.push((k, v)));
    }
}

/// Binding a key grows the list by at most one entry.
pub proof fn lemma_assoc_set_len(m: Seq<(Seq<u8>, Seq<FaceMarker>)>, k: Seq<u8>, v: Seq<FaceMarker>)
    ensures
        assoc_set(m, k, v).len() <= m.len() + 1,
    decreases m.len(),
{
    if m.len() == 0 {
    } else if m[0].0 == k {
    } else {
        lemma_assoc_set_len(m.drop_first(), k, v);
    }
}

/// The name the current object flushes under: the last `o` name, or the
/// default for unnamed geometry.
pub open spec fn flush_name(s: WFObjectState) -> Seq<u8> {
    if s.last_name@.len() == 0 {
        unknown_name_bytes()
    } else {
        s.last_name@
    }
}

/// The object list after flushing the accumulated face list; flushing an
/// empty face list changes nothing.
pub open spec fn flushed_obj_list(s: WFObjectState) -> Seq<(Seq<u8>, Seq<FaceMarker>)> {
    if s.last_face_list@.len() == 0 {
        obj_map_view(s.obj_face_list@)
    } else {
        assoc_set(obj_map_view(s.obj_face_list@), flush_name(s), s.last_face_list@)
    }
}

/// Compare two byte strings.
fn bytes_eq(a: &[u8], b: &[u8]) -> (r: bool)
    ensures
        r == (a@ == b@),
{
    if a.len() != b.len() {
        return false;
    }
    let mut i: usize = 0;
    while i < a.len()
        invariant
            i <= a@.len(),
            a@.len() == b@.len(),
            forall|j: int| 0 <= j < i ==> a@[j] == b@[j],
        decreases a@.len() - i,
    {
        if a[i] != b[i] {
            return false;
        }
        i = i + 1;
    }
    proof {
        assert(a@ =~= b@);
    }
    true
}

impl WFObjectState {
    /// A fresh, empty parse state.
    pub fn new() -> (s: WFObjectState)
        ensures
            s.vert_list@.len() == 0,
            s.normal_list@.len() == 0,
            s.tex_list@.len() == 0,
            s.obj_face_list@.len() == 0,
            s.last_name@.len() == 0,
            s.last_face_list@.len() == 0,
    {
        WFObjectState {
            vert_list: Vec::new(),
            normal_list: Vec::new(),
            tex_list: Vec::new(),
            obj_face_list: Vec::new(),
            last_name: Vec::new(),
            last_face_list: Vec::new(),
        }
    }

    /// Flush the accumulated face list under the current name.
    pub fn push_object(&mut self)
        ensures
            obj_map_view(final(self).obj_face_list@) == flushed_obj_list(*old(self)),
            final(self).last_face_list@.len() == 0,
            final(self).vert_list == old(self).vert_list,
            final(self).normal_list == old(self).normal_list,
            final(self).tex_list == old(self).tex_list,
            final(self).last_name == old(self).last_name,
    {
        if self.last_face_list.len() == 0 {
            return ;
        }
        let name: Vec<u8> = if self.last_name.len() == 0 {
            unknown_name()
        } else {
            clone_bytes(&self.last_name)
        };
        let mut faces: Vec<FaceMarker> = Vec::new();
        core::mem::swap(&mut faces, &mut self.last_face_list);
        let ghost m = obj_map_view(self.obj_face_list@);
        let mut found: Option<usize> = None;
        let mut i: usize = 0;
        while i < self.obj_face_list.len() && found.is_none()
            invariant
                i <= self.obj_face_list@.len(),
                m == obj_map_view(self.obj_face_list@),
                forall|j: int| 0 <= j < i ==> m[j].0 != name@,
                match found {
                    Some(f) => f == i && i < m.len() && m[f as int].0 == name@,
                    None => true,
                },
            decreases
                    self.obj_face_list@.len() - i + (if found is None {
                        1int
                    } else {
                        0int
                    }),
        {
            proof {
                assert(m[i as int].0 == self.obj_face_list@[i as int].0@);
            }
            if bytes_eq(self.obj_face_list[i].0.as_slice(), name.as_slice()) {
                found = Some(i);
            } else {
                i = i + 1;
            }
        }
        let ghost nm = name@;
        let ghost fc = faces@;
        match found {
            Some(f) => {
                proof {
                    lemma_assoc_set_update(m, nm, fc, f as int);
                }
                self.obj_face_list[f] = (name, faces);
                proof {
                    assert(obj_map_view(self.obj_face_list@) =~= m.update(f as int, (nm, fc)));
                }
            },
            None => {
                proof {
                    lemma_assoc_set_push(m, nm, fc);
                }
                self.obj_face_list.push((name, faces));
                proof {
                    assert(obj_map_view(self.obj_face_list@) =~= m.push((nm, fc)));
                }
            },
        }
    }
}

/// Copy a byte string.
fn clone_bytes(v: &Vec<u8>) -> (r: Vec<u8>)
    ensures
        r@ == v@,
{
    vstd::slice::slice_to_vec(v.as_slice())
}

/// What one corner token of an `f` directive contributes to the face list,
/// given the attribute list lengths at the time of the directive.
pub open spec fn spec_face_marker(tok: Seq<u8>, nv: int, nt: int, nn: int) -> FaceMarker {
    FaceMarker::Def(spec_sanitized_face(spec_face_def(tok), nv, nt, nn))
}

impl WFObjectState {
    /// A `v` directive: up to six scalars are read; when exactly four are
    /// present the fourth is a homogeneous coordinate and the first three
    /// are divided by it. A position is pushed in every case.
    pub fn handle_v<O: ScalarOps>(&mut self, tokens: &Vec<Vec<u8>>, ops: &mut O)
        requires
            tokens@.len() >= 1,
        ensures
            final(self).vert_list@.len() == old(self).vert_list@.len() + 1,
            final(self).normal_list == old(self).normal_list,
            final(self).tex_list == old(self).tex_list,
            final(self).obj_face_list == old(self).obj_face_list,
            final(self).last_name == old(self).last_name,
            final(self).last_face_list == old(self).last_face_list,
    {
        let mut vals: [u32; 6] = [
            0u32,
            0u32,
            0u32,
            crate::bits::ONE_BITS,
            crate::bits::ONE_BITS,
            crate::bits::ONE_BITS,
        ];
        let mut count: usize = 0;
        let mut i: usize = 1;
        while i < tokens.len() && i <= 6
            invariant
                1 <= i <= 7,
                count < i,
            decreases 7 - i,
        {
            vals[i - 1] = ops.bits_of_token(tokens[i].as_slice());
            count = i;
            i = i + 1;
        }
        if count == 4 {
            vals[0] = ops.div_bits(vals[0], vals[3]);
            vals[1] = ops.div_bits(vals[1], vals[3]);
            vals[2] = ops.div_bits(vals[2], vals[3]);
            vals[3] = crate::bits::ONE_BITS;
        }
        self.vert_list.push([vals[0], vals[1], vals[2]]);
    }

    /// A `vn` directive: three scalars, absent tokens read as zero.
    pub fn handle_vn<O: ScalarOps>(&mut self, tokens: &Vec<Vec<u8>>, ops: &mut O)
        requires
            tokens@.len() >= 1,
        ensures
            final(self).normal_list@.len() == old(self).normal_list@.len() + 1,
            final(self).vert_list == old(self).vert_list,
            final(self).tex_list == old(self).tex_list,
            final(self).obj_face_list == old(self).obj_face_list,
            final(self).last_name == old(self).last_name,
            final(self).last_face_list == old(self).last_face_list,
    {
        let n = self.read_three(tokens, ops);
        self.normal_list.push(n);
    }

    /// A `vt` directive: three scalars, absent tokens read as zero.
    pub fn handle_vt<O: ScalarOps>(&mut self, tokens: &Vec<Vec<u8>>, ops: &mut O)
        requires
            tokens@.len() >= 1,
        ensures
            final(self).tex_list@.len() == old(self).tex_list@.len() + 1,
            final(self).vert_list == old(self).vert_list,
            final(self).normal_list == old(self).normal_list,
            final(self).obj_face_list == old(self).obj_face_list,
            final(self).last_name == old(self).last_name,
            final(self).last_face_list == old(self).last_face_list,
    {
        let t = self.read_three(tokens, ops);
        self.tex_list.push(t);
    }

    /// Read the first three value tokens after the directive; a missing
    /// token reads as positive zero.
    fn read_three<O: ScalarOps>(&mut self, tokens: &Vec<Vec<u8>>, ops: &mut O) -> (r: [u32; 3])
        ensures
            *final(self) == *old(self),
    {
        let a = if tokens.len() > 1 {
            ops.bits_of_token(tokens[1].as_slice())
        } else {
            0u32
        };
        let b = if tokens.len() > 2 {
            ops.bits_of_token(tokens[2].as_slice())
        } else {
            0u32
        };
        let c = if tokens.len() > 3 {
            ops.bits_of_token(tokens[3].as_slice())
        } else {
            0u32
        };
        [a, b, c]
    }

    /// An `f` directive: every corner token is read and resolved against
    /// the attribute lists as they stand, and an end marker closes the face.
    pub fn handle_f(&mut self, tokens: &Vec<Vec<u8>>)
        requires
            tokens@.len() >= 1,
            old(self).vert_list@.len() <= 0x7fff_ffff,
            old(self).tex_list@.len() <= 0x7fff_ffff,
            old(self).normal_list@.len() <= 0x7fff_ffff,
        ensures
            final(self).last_face_list@ == old(self).last_face_list@ + tokens.deep_view().skip(
                1,
            ).map_values(
                |t: Seq<u8>|
                    spec_face_marker(
                        t,
                        old(self).vert_list@.len() as int,
                        old(self).tex_list@.len() as int,
                        old(self).normal_list@.len() as int,
                    ),
            ).push(FaceMarker::End),
            final(self).vert_list == old(self).vert_list,
            final(self).normal_list == old(self).normal_list,
            final(self).tex_list == old(self).tex_list,
            final(self).obj_face_list == old(self).obj_face_list,
            final(self).last_name == old(self).last_name,
    {
        let ghost nv = self.vert_list@.len() as int;
        let ghost nt = self.tex_list@.len() as int;
        let ghost nn = self.normal_list@.len() as int;
        let ghost mapped = tokens.deep_view().skip(1).map_values(
            |t: Seq<u8>| spec_face_marker(t, nv, nt, nn),
        );
        let mut i: usize = 1;
        while i < tokens.len()
            invariant
                1 <= i <= tokens@.len(),
                self.vert_list == old(self).vert_list,
                self.normal_list == old(self).normal_list,
                self.tex_list == old(self).tex_list,
                self.obj_face_list == old(self).obj_face_list,
                self.last_name == old(self).last_name,
                self.vert_list@.len() <= 0x7fff_ffff,
                self.tex_list@.len() <= 0x7fff_ffff,
                self.normal_list@.len() <= 0x7fff_ffff,
                nv == self.vert_list@.len() as int,
                nt == self.tex_list@.len() as int,
                nn == self.normal_list@.len() as int,
                mapped == tokens.deep_view().skip(1).map_values(
                    |t: Seq<u8>| spec_face_marker(t, nv, nt, nn),
                ),
                self.last_face_list@ == old(self).last_face_list@ + mapped.subrange(0, i - 1),
            decreases tokens@.len() - i,
        {
            proof {
                assert(tokens.deep_view()[i as int] == tokens@[i as int]@);
                assert(mapped[i - 1] == spec_face_marker(tokens@[i as int]@, nv, nt, nn));
            }
            let def = FaceDef::new(tokens[i].as_slice()).sanitize(
                self.vert_list.len(),
                self.tex_list.len(),
                self.normal_list.len(),
            );
            self.last_face_list.push(FaceMarker::Def(def));
            proof {
                assert(old(self).last_face_list@ + mapped.subrange(0, i as int) =~= (old(
                    self,
                ).last_face_list@ + mapped.subrange(0, i - 1)).push(
                    spec_face_marker(tokens@[i as int]@, nv, nt, nn),
                ));
            }
            i = i + 1;
        }
        self.last_face_list.push(FaceMarker::End);
        proof {
            assert(mapped.subrange(0, mapped.len() as int) =~= mapped);
            assert(old(self).last_face_list@ + mapped.push(FaceMarker::End) =~= (old(
                self,
            ).last_face_list@ + mapped).push(FaceMarker::End));
        }
    }

    /// An `o` directive: flush the accumulated object, then adopt the new
    /// name, or the default name when the directive carries none.
    pub fn handle_o(&mut self, tokens: &Vec<Vec<u8>>)
        requires
            tokens@.len() >= 1,
        ensures
            obj_map_view(final(self).obj_face_list@) == flushed_obj_list(*old(self)),
            final(self).last_face_list@.len() == 0,
            final(self).last_name@ == if tokens@.len() >= 2 {
                tokens.deep_view()[1]
            } else {
                unknown_name_bytes()
            },
            final(self).vert_list == old(self).vert_list,
            final(self).normal_list == old(self).normal_list,
            final(self).tex_list == old(self).tex_list,
    {
        self.push_object();
        if tokens.len() >= 2 {
            proof {
                assert(tokens.deep_view()[1] == tokens@[1]@);
            }
            self.last_name = clone_bytes(&tokens[1]);
        } else {
            self.last_name = unknown_name();
        }
    }

    /// Dispatch one line on its directive token; empty lines and unknown
    /// directives change nothing.
    pub fn handle<O: ScalarOps>(&mut self, line: &[u8], ops: &mut O)
        requires
            old(self).vert_list@.len() <= 0x7fff_ffff,
            old(self).tex_list@.len() <= 0x7fff_ffff,
            old(self).normal_list@.len() <= 0x7fff_ffff,
        ensures
            ({
                let toks = crate::text::ws_tokens(line@);
                if toks.len() == 0 {
                    *final(self) == *old(self)
                } else if toks[0].len() == 1 && toks[0][0] == 118 {
                    // v
                    &&& final(self).vert_list@.len() == old(self).vert_list@.len() + 1
                    &&& final(self).normal_list == old(self).normal_list
                    &&& final(self).tex_list == old(self).tex_list
                    &&& final(self).obj_face_list == old(self).obj_face_list
                    &&& final(self).last_name == old(self).last_name
                    &&& final(self).last_face_list == old(self).last_face_list
                } else if toks[0].len() == 2 && toks[0][0] == 118 && toks[0][1] == 110 {
                    // vn
                    &&& final(self).normal_list@.len() == old(self).normal_list@.len() + 1
                    &&& final(self).vert_list == old(self).vert_list
                    &&& final(self).tex_list == old(self).tex_list
                    &&& final(self).obj_face_list == old(self).obj_face_list
                    &&& final(self).last_name == old(self).last_name
                    &&& final(self).last_face_list == old(self).last_face_list
                } else if toks[0].len() == 2 && toks[0][0] == 118 && toks[0][1] == 116 {
                    // vt
                    &&& final(self).tex_list@.len() == old(self).tex_list@.len() + 1
                    &&& final(self).vert_list == old(self).vert_list
                    &&& final(self).normal_list == old(self).normal_list
                    &&& final(self).obj_face_list == old(self).obj_face_list
                    &&& final(self).last_name == old(self).last_name
                    &&& final(self).last_face_list == old(self).last_face_list
                } else if toks[0].len() == 1 && toks[0][0] == 102 {
                    // f
                    &&& final(self).last_face_list@ == old(self).last_face_list@ + toks.skip(
                        1,
                    ).map_values(
                        |t: Seq<u8>|
                            spec_face_marker(
                                t,
                                old(self).vert_list@.len() as int,
                                old(self).tex_list@.len() as int,
                                old(self).normal_list@.len() as int,
                            ),
                    ).push(FaceMarker::End)
                    &&& final(self).vert_list == old(self).vert_list
                    &&& final(self).normal_list == old(self).normal_list
                    &&& final(self).tex_list == old(self).tex_list
                    &&& final(self).obj_face_list == old(self).obj_face_list
                    &&& final(self).last_name == old(self).last_name
                } else if toks[0].len() == 1 && toks[0][0] == 111 {
                    // o
                    &&& obj_map_view(final(self).obj_face_list@) == flushed_obj_list(*old(self))
                    &&& final(self).last_face_list@.len() == 0
                    &&& final(self).last_name@ == if toks.len() >= 2 {
                        toks[1]
                    } else {
                        unknown_name_bytes()
                    }
                    &&& final(self).vert_list == old(self).vert_list
                    &&& final(self).normal_list == old(self).normal_list
                    &&& final(self).tex_list == old(self).tex_list
                } else {
                    *final(self) == *old(self)
                }
            }),
    {
        let tokens = crate::text::tokenize(line);
        if tokens.len() == 0 {
            return ;
        }
        proof {
            assert(tokens.deep_view()[0] == tokens@[0]@);
        }
        let d = tokens[0].as_slice();
        if d.len() == 1 && d[0] == 118 {
            self.handle_v(&tokens, ops);
        } else if d.len() == 2 && d[0] == 118 && d[1] == 110 {
            self.handle_vn(&tokens, ops);
        } else if d.len() == 2 && d[0] == 118 && d[1] == 116 {
            self.handle_vt(&tokens, ops);
        } else if d.len() == 1 && d[0] == 102 {
            self.handle_f(&tokens);
        } else if d.len() == 1 && d[0] == 111 {
            self.handle_o(&tokens);
        }
    }
}

/// Whether the corner refers into a list of `len` entries.
pub open spec fn spec_index_valid(x: Option<i32>, len: int) -> bool {
    x matches Some(i) && 0 <= i < len
}

/// The attribute a resolved corner index selects, or zero when the corner
/// does not refer into the list. A reference that resolved outside the list
/// is treated like an absent one, so that malformed input yields default
/// attributes rather than a failure.
pub open spec fn spec_attr(list: Seq<[u32; 3]>, x: Option<i32>) -> Seq<u32> {
    if spec_index_valid(x, list.len() as int) {
        list[x->0 as int]@
    } else {
        seq![0u32, 0u32, 0u32]
    }
}

/// Look an attribute up by a resolved corner index.
fn lookup_attr(list: &Vec<[u32; 3]>, x: Option<i32>) -> (r: [u32; 3])
    ensures
        r@ == spec_attr(list@, x),
{
    match x {
        Some(i) => {
            if 0 <= i && (i as usize) < list.len() {
                let r = list[i as usize];
                proof {
                    assert(r@ =~= spec_attr(list@, x));
                }
                r
            } else {
                let r = [0u32, 0u32, 0u32];
                proof {
                    assert(r@ =~= spec_attr(list@, x));
                }
                r
            }
        },
        None => {
            let r = [0u32, 0u32, 0u32];
            proof {
                assert(r@ =~= spec_attr(list@, x));
            }
            r
        },
    }
}

/// Build the full vertex a resolved corner denotes: position and normal
/// are looked up, the texture coordinate is quantized, the tangent is zero
/// and the color opaque white.
fn assemble_vertex<O: ScalarOps>(
    vert_list: &Vec<[u32; 3]>,
    normal_list: &Vec<[u32; 3]>,
    tex_list: &Vec<[u32; 3]>,
    f: FaceDef,
    ops: &mut O,
) -> (r: VertexData)
    ensures
        r.position@ == spec_attr(vert_list@, f.v),
        r.normal@ == spec_attr(normal_list@, f.n),
        r.tangent@ == seq![0u32, 0u32, 0u32],
        r.color@ == seq![255u8, 255u8, 255u8, 255u8],
        !spec_index_valid(f.t, tex_list@.len() as int) ==> r.texture@ == seq![0u16, 0u16],
{
    let position = lookup_attr(vert_list, f.v);
    let normal = lookup_attr(normal_list, f.n);
    let texture: [u16; 2] = match f.t {
        Some(i) => {
            if 0 <= i && (i as usize) < tex_list.len() {
                let uv = tex_list[i as usize];
                [ops.quantize_u16(uv[0]), ops.quantize_u16(uv[1])]
            } else {
                [0u16, 0u16]
            }
        },
        None => [0u16, 0u16],
    };
    let r = VertexData {
        position,
        normal,
        tangent: [0u32, 0u32, 0u32],
        texture,
        color: [255u8, 255u8, 255u8, 255u8],
    };
    proof {
        assert(r.tangent@ =~= seq![0u32, 0u32, 0u32]);
        assert(r.color@ =~= seq![255u8, 255u8, 255u8, 255u8]);
        if !spec_index_valid(f.t, tex_list@.len() as int) {
            assert(r.texture@ =~= seq![0u16, 0u16]);
        }
    }
    r
}

/// `r` reads the cyclic sequence `c` of four corners starting at corner `k`.
pub open spec fn rotation_of(r: Seq<u32>, c: Seq<u32>, k: int) -> bool {
    &&& c.len() == 4
    &&& r.len() == 4
    &&& 0 <= k < 4
    &&& forall|i: int| 0 <= i < 4 ==> r[i] == c[(k + i) % 4]
}

/// The corner the concavity scan selects: the first corner whose answer
/// is true, or the first corner when none is.
pub open spec fn spec_start_corner(a: Seq<bool>) -> int {
    if a.len() >= 1 && a[0] {
        0
    } else if a.len() >= 2 && a[1] {
        1
    } else if a.len() >= 3 && a[2] {
        2
    } else if a.len() >= 4 && a[3] {
        3
    } else {
        0
    }
}

/// Ask the concavity test about each corner of the quad, in cycle order:
/// whether corner `i`, with its two neighbours and the opposite corner, is
/// a reflex corner.
fn concavity_answers<O: ScalarOps>(cache: &Vec<u32>, vs: &Vec<VertexData>, ops: &mut O) -> [bool;
    4]
    requires
        cache@.len() == 4,
        forall|k: int| 0 <= k < 4 ==> (cache@[k] as int) < vs@.len(),
{
    let mut answers: [bool; 4] = [false, false, false, false];
    let mut i: usize = 0;
    while i < 4
        invariant
            i <= 4,
            cache@.len() == 4,
            forall|k: int| 0 <= k < 4 ==> (cache@[k] as int) < vs@.len(),
        decreases 4 - i,
    {
        let a = vs[cache[i] as usize].position;
        let b = vs[cache[(i + 1) % 4] as usize].position;
        let c = vs[cache[(i + 2) % 4] as usize].position;
        let d = vs[cache[(i + 3) % 4] as usize].position;
        answers[i] = ops.is_reflex(a, b, c, d);
        i = i + 1;
    }
    answers
}

/// Rotate the quad's cycle to start at the corner the concavity answers
/// select: the first reflex corner, or the first corner when the quad has
/// none.
pub fn rotate_to_reflex(cache: &Vec<u32>, answers: [bool; 4]) -> (r: [u32; 4])
    requires
        cache@.len() == 4,
    ensures
        rotation_of(r@, cache@, spec_start_corner(answers@)),
{
    let k: usize = if answers[0] {
        0
    } else if answers[1] {
        1
    } else if answers[2] {
        2
    } else if answers[3] {
        3
    } else {
        0
    };
    let r = [cache[k], cache[(k + 1) % 4], cache[(k + 2) % 4], cache[(k + 3) % 4]];
    proof {
        assert(answers@[0] == answers[0] && answers@[1] == answers[1] && answers@[2] == answers[2]
            && answers@[3] == answers[3]);
        assert(rotation_of(r@, cache@, spec_start_corner(answers@)));
    }
    r
}

/// Scan the four corners of a quad for one whose two adjacent interior
/// angles sum to more than pi — a reflex corner — and return the cycle
/// rotated to start there; without such a corner the cycle is returned as
/// it stands. The selection over the four concavity answers is fixed by
/// [`rotate_to_reflex`]; what this function adds is only the four oracle
/// calls.
pub fn get_concave_vertex<O: ScalarOps>(cache: &Vec<u32>, vs: &Vec<VertexData>, ops: &mut O) -> (r: [
    u32;
    4])
    requires
        cache@.len() == 4,
        forall|k: int| 0 <= k < 4 ==> (cache@[k] as int) < vs@.len(),
    ensures
        exists|k: int| rotation_of(r@, cache@, k),
{
    let answers = concavity_answers(cache, vs, ops);
    let r = rotate_to_reflex(cache, answers);
    proof {
        assert(rotation_of(r@, cache@, spec_start_corner(answers@)));
    }
    r
}

/// The two triangles fan out from corner `k` of the cyclic quad `c` and
/// share the diagonal from `c[k]` to the opposite corner.
pub open spec fn fan_split(f1: Seq<u32>, f2: Seq<u32>, c: Seq<u32>, k: int) -> bool {
    &&& c.len() == 4
    &&& f1.len() == 3
    &&& f2.len() == 3
    &&& 0 <= k < 4
    &&& f1[0] == c[k % 4]
    &&& f1[1] == c[(k + 1) % 4]
    &&& f1[2] == c[(k + 2) % 4]
    &&& f2[0] == c[k % 4]
    &&& f2[1] == c[(k + 2) % 4]
    &&& f2[2] == c[(k + 3) % 4]
}

/// Split the quad whose concavity answers are given: two triangles fanning
/// out from the selected corner (the first reflex one, else the first),
/// sharing the diagonal from it to the opposite corner.
pub fn split_quad(cache: &Vec<u32>, answers: [bool; 4]) -> (r: ([u32; 3], [u32; 3]))
    requires
        cache@.len() == 4,
    ensures
        fan_split(r.0@, r.1@, cache@, spec_start_corner(answers@)),
{
    let start = rotate_to_reflex(cache, answers);
    let f1 = [start[0], start[1], start[2]];
    let f2 = [start[0], start[2], start[3]];
    let r = (f1, f2);
    proof {
        assert(fan_split(r.0@, r.1@, cache@, spec_start_corner(answers@)));
    }
    r
}

/// Split a quadrilateral into two triangles that share the diagonal
/// through the corner the concavity scan selected, so that a planar
/// non-convex quad is fanned from its reflex corner. The choice of corner
/// over the four concavity answers is fixed by [`split_quad`]; what this
/// function adds is only the four oracle calls.
pub fn compute_quad<O: ScalarOps>(cache: &Vec<u32>, vs: &Vec<VertexData>, ops: &mut O) -> (r: (
    [u32; 3],
    [u32; 3],
))
    requires
        cache@.len() == 4,
        forall|k: int| 0 <= k < 4 ==> (cache@[k] as int) < vs@.len(),
    ensures
        exists|k: int| fan_split(r.0@, r.1@, cache@, k),
        forall|j: int| 0 <= j < 3 ==> (r.0@[j] as int) < vs@.len(),
        forall|j: int| 0 <= j < 3 ==> (r.1@[j] as int) < vs@.len(),
{
    let answers = concavity_answers(cache, vs, ops);
    let r = split_quad(cache, answers);
    proof {
        assert(fan_split(r.0@, r.1@, cache@, spec_start_corner(answers@)));
    }
    r
}

/// One packed object: its name and its deduplicated vertex and triangle
/// buffers.
#[derive(Debug)]
pub struct PackedObj {
    pub name: Vec<u8>,
    pub verts: Vec<VertexData>,
    pub faces: Vec<[u32; 3]>,
}

impl PackedObj {
    /// Every triangle refers into the vertex buffer.
    pub open spec fn wf(self) -> bool {
        forall|i: int, k: int|
            0 <= i < self.faces@.len() && 0 <= k < 3 ==> (self.faces@[i]@[k] as int)
                < self.verts@.len()
    }
}

/// Find the buffer slot already allocated for a corner triple.
fn find_remap(remapper: &Vec<(FaceDef, u32)>, f: &FaceDef) -> (r: Option<u32>)
    ensures
        match r {
            Some(x) => exists|k: int|
                0 <= k < remapper@.len() && remapper@[k].0 == *f && remapper@[k].1 == x,
            None => forall|k: int| 0 <= k < remapper@.len() ==> remapper@[k].0 != *f,
        },
{
    let mut i: usize = 0;
    while i < remapper.len()
        invariant
            i <= remapper@.len(),
            forall|k: int| 0 <= k < i ==> remapper@[k].0 != *f,
        decreases remapper@.len() - i,
    {
        if remapper[i].0 == *f {
            return Some(remapper[i].1);
        }
        i = i + 1;
    }
    None
}

/// The distinct corner triples of a face-marker list, in order of first
/// appearance: the vertex buffer the dedup map builds.
pub open spec fn distinct_defs(ms: Seq<FaceMarker>) -> Seq<FaceDef>
    decreases ms.len(),
{
    if ms.len() == 0 {
        Seq::empty()
    } else {
        let p = distinct_defs(ms.drop_last());
        match ms.last() {
            FaceMarker::Def(f) => if p.contains(f) {
                p
            } else {
                p.push(f)
            },
            FaceMarker::End => p,
        }
    }
}

/// How many corners the current face has accumulated since the last face
/// ended.
pub open spec fn pending_corners(ms: Seq<FaceMarker>) -> nat
    decreases ms.len(),
{
    if ms.len() == 0 {
        0
    } else {
        match ms.last() {
            FaceMarker::End => 0,
            FaceMarker::Def(_) => 1 + pending_corners(ms.drop_last()),
        }
    }
}

/// How many triangles a face-marker list yields: one per three-corner
/// face, two per four-corner face, none for any other corner count.
pub open spec fn tri_count(ms: Seq<FaceMarker>) -> nat
    decreases ms.len(),
{
    if ms.len() == 0 {
        0
    } else {
        match ms.last() {
            FaceMarker::Def(_) => tri_count(ms.drop_last()),
            FaceMarker::End => tri_count(ms.drop_last()) + (if pending_corners(ms.drop_last())
                == 3 {
                1nat
            } else if pending_corners(ms.drop_last()) == 4 {
                2nat
            } else {
                0nat
            }),
        }
    }
}

/// Pack one object's face markers: each distinct corner triple becomes one
/// vertex, faces of three corners one triangle, faces of four corners two,
/// and every other corner count is dropped.
fn pack_object<O: ScalarOps>(
    markers: &Vec<FaceMarker>,
    vert_list: &Vec<[u32; 3]>,
    normal_list: &Vec<[u32; 3]>,
    tex_list: &Vec<[u32; 3]>,
    ops: &mut O,
) -> (r: (Vec<VertexData>, Vec<[u32; 3]>))
    requires
        markers@.len() <= 0xffff_fffe,
    ensures
        forall|i: int, k: int|
            0 <= i < r.1@.len() && 0 <= k < 3 ==> (r.1@[i]@[k] as int) < r.0@.len(),
        r.0@.len() == distinct_defs(markers@).len(),
        forall|k: int|
            0 <= k < r.0@.len() ==> (#[trigger] r.0@[k]).position@ == spec_attr(
                vert_list@,
                distinct_defs(markers@)[k].v,
            ) && r.0@[k].normal@ == spec_attr(normal_list@, distinct_defs(markers@)[k].n),
        r.1@.len() == tri_count(markers@),
{
    let mut verts: Vec<VertexData> = Vec::new();
    let mut faces: Vec<[u32; 3]> = Vec::new();
    let mut remapper: Vec<(FaceDef, u32)> = Vec::new();
    let mut cache: Vec<u32> = Vec::new();
    let mut mi: usize = 0;
    proof {
        assert(markers@.subrange(0, 0) =~= Seq::<FaceMarker>::empty());
    }
    while mi < markers.len()
        invariant
            mi <= markers@.len(),
            markers@.len() <= 0xffff_fffe,
            verts@.len() == remapper@.len(),
            verts@.len() <= mi,
            remapper@.len() == distinct_defs(markers@.subrange(0, mi as int)).len(),
            forall|k: int|
                0 <= k < remapper@.len() ==> (#[trigger] remapper@[k]).0 == distinct_defs(
                    markers@.subrange(0, mi as int),
                )[k] && remapper@[k].1 == k as u32,
            forall|k: int|
                0 <= k < verts@.len() ==> (#[trigger] verts@[k]).position@ == spec_attr(
                    vert_list@,
                    distinct_defs(markers@.subrange(0, mi as int))[k].v,
                ) && verts@[k].normal@ == spec_attr(
                    normal_list@,
                    distinct_defs(markers@.subrange(0, mi as int))[k].n,
                ),
            cache@.len() == pending_corners(markers@.subrange(0, mi as int)),
            faces@.len() == tri_count(markers@.subrange(0, mi as int)),
            forall|k: int| 0 <= k < cache@.len() ==> (cache@[k] as int) < verts@.len(),
            forall|i: int, k: int|
                0 <= i < faces@.len() && 0 <= k < 3 ==> (faces@[i]@[k] as int) < verts@.len(),
        decreases markers@.len() - mi,
    {
        let ghost pre = markers@.subrange(0, mi as int);
        let ghost cur = markers@.subrange(0, mi + 1);
        proof {
            assert(cur.drop_last() =~= pre);
            assert(cur.last() == markers@[mi as int]);
        }
        match markers[mi] {
            FaceMarker::Def(f) => {
                match find_remap(&remapper, &f) {
                    Some(x) => {
                        proof {
                            let k = choose|k: int|
                                0 <= k < remapper@.len() && remapper@[k].0 == f && remapper@[k].1
                                    == x;
                            assert(distinct_defs(pre)[k] == f);
                            assert(distinct_defs(pre).contains(f));
                            assert(distinct_defs(cur) == distinct_defs(pre));
                        }
                        cache.push(x);
                    },
                    None => {
                        proof {
                            if distinct_defs(pre).contains(f) {
                                let k = choose|k: int|
                                    0 <= k < distinct_defs(pre).len() && distinct_defs(pre)[k]
                                        == f;
                                assert(remapper@[k].0 == f);
                            }
                            assert(distinct_defs(cur) =~= distinct_defs(pre).push(f));
                        }
                        let idx: u32 = verts.len() as u32;
                        let v = assemble_vertex(vert_list, normal_list, tex_list, f, ops);
                        verts.push(v);
                        remapper.push((f, idx));
                        cache.push(idx);
                    },
                }
            },
            FaceMarker::End => {
                proof {
                    assert(distinct_defs(cur) == distinct_defs(pre));
                    assert(tri_count(cur) == tri_count(pre) + (if pending_corners(pre) == 3 {
                        1nat
                    } else if pending_corners(pre) == 4 {
                        2nat
                    } else {
                        0nat
                    }));
                }
                if cache.len() == 3 {
                    faces.push([cache[0], cache[1], cache[2]]);
                } else if cache.len() == 4 {
                    let (f1, f2) = compute_quad(&cache, &verts, ops);
                    faces.push(f1);
                    faces.push(f2);
                }
                cache.clear();
            },
        }
        mi = mi + 1;
    }
    proof {
        assert(markers@.subrange(0, markers@.len() as int) =~= markers@);
    }
    (verts, faces)
}

/// Flush the pending object, then pack every named object in order of
/// first appearance. An object whose face list exceeds the index range of
/// the wire format packs as an empty mesh.
pub fn pack_wf_state<O: ScalarOps>(state: WFObjectState, ops: &mut O) -> (r: Vec<PackedObj>)
    ensures
        r@.len() == flushed_obj_list(state).len(),
        forall|i: int| 0 <= i < r@.len() ==> r@[i].name@ == flushed_obj_list(state)[i].0,
        forall|i: int| 0 <= i < r@.len() ==> r@[i].wf(),
        forall|i: int|
            0 <= i < r@.len() && flushed_obj_list(state)[i].1.len() <= 0xffff_fffe ==> {
                &&& (#[trigger] r@[i]).verts@.len() == distinct_defs(
                    flushed_obj_list(state)[i].1,
                ).len()
                &&& r@[i].faces@.len() == tri_count(flushed_obj_list(state)[i].1)
                &&& forall|k: int|
                    0 <= k < r@[i].verts@.len() ==> (#[trigger] r@[i].verts@[k]).position@
                        == spec_attr(
                        state.vert_list@,
                        distinct_defs(flushed_obj_list(state)[i].1)[k].v,
                    ) && r@[i].verts@[k].normal@ == spec_attr(
                        state.normal_list@,
                        distinct_defs(flushed_obj_list(state)[i].1)[k].n,
                    )
            },
{
    let ghost entry = state;
    let mut state = state;
    state.push_object();
    let ghost target = flushed_obj_list(entry);
    let mut r: Vec<PackedObj> = Vec::new();
    let mut i: usize = 0;
    while i < state.obj_face_list.len()
        invariant
            i <= state.obj_face_list@.len(),
            obj_map_view(state.obj_face_list@) == target,
            r@.len() == i,
            state.vert_list == entry.vert_list,
            state.normal_list == entry.normal_list,
            forall|k: int| 0 <= k < i ==> r@[k].name@ == target[k].0,
            forall|k: int| 0 <= k < i ==> r@[k].wf(),
            forall|k: int|
                0 <= k < i && target[k].1.len() <= 0xffff_fffe ==> {
                    &&& (#[trigger] r@[k]).verts@.len() == distinct_defs(target[k].1).len()
                    &&& r@[k].faces@.len() == tri_count(target[k].1)
                    &&& forall|w: int|
                        0 <= w < r@[k].verts@.len() ==> (#[trigger] r@[k].verts@[w]).position@
                            == spec_attr(entry.vert_list@, distinct_defs(target[k].1)[w].v) && r@[
                        k].verts@[w].normal@ == spec_attr(
                            entry.normal_list@,
                            distinct_defs(target[k].1)[w].n,
                        )
                },
        decreases state.obj_face_list@.len() - i,
    {
        let name = clone_bytes(&state.obj_face_list[i].0);
        let markers = &state.obj_face_list[i].1;
        let (verts, faces) = if markers.len() <= 0xffff_fffe {
            pack_object(markers, &state.vert_list, &state.normal_list, &state.tex_list, ops)
        } else {
            (Vec::<VertexData>::new(), Vec::<[u32; 3]>::new())
        };
        let p = PackedObj { name, verts, faces };
        proof {
            assert(target[i as int].0 == state.obj_face_list@[i as int].0@);
            assert(target[i as int].1 == state.obj_face_list@[i as int].1@);
            assert(p.wf());
        }
        r.push(p);
        i = i + 1;
    }
    r
}

/// The deterministic part of the parse state: attribute counts, the
/// flushed objects, and the object being accumulated. The attribute
/// *values* are read by the numeric oracle, but their counts, the object
/// names and the face-marker lists are functions of the text alone.
pub ghost struct ParseView {
    pub verts: nat,
    pub texs: nat,
    pub normals: nat,
    pub objects: Seq<(Seq<u8>, Seq<FaceMarker>)>,
    pub last_name: Seq<u8>,
    pub pending: Seq<FaceMarker>,
}

/// The deterministic view of a parse state.
pub open spec fn view_of(s: WFObjectState) -> ParseView {
    ParseView {
        verts: s.vert_list@.len(),
        texs: s.tex_list@.len(),
        normals: s.normal_list@.len(),
        objects: obj_map_view(s.obj_face_list@),
        last_name: s.last_name@,
        pending: s.last_face_list@,
    }
}

/// The name the pending object flushes under.
pub open spec fn view_flush_name(v: ParseView) -> Seq<u8> {
    if v.last_name.len() == 0 {
        unknown_name_bytes()
    } else {
        v.last_name
    }
}

/// The object list after flushing the pending object; an empty pending
/// face list flushes nothing.
pub open spec fn flushed_objects(v: ParseView) -> Seq<(Seq<u8>, Seq<FaceMarker>)> {
    if v.pending.len() == 0 {
        v.objects
    } else {
        assoc_set(v.objects, view_flush_name(v), v.pending)
    }
}

/// The two flush formulations agree.
pub proof fn lemma_flushed_view(s: WFObjectState)
    ensures
        flushed_objects(view_of(s)) == flushed_obj_list(s),
{
}

/// What one line does to the parse view, mirroring
/// [`WFObjectState::handle`] with the importer's comment skip in front.
pub open spec fn spec_line_step(v: ParseView, line: Seq<u8>) -> ParseView {
    if line.len() > 0 && line[0] == 35 {
        v
    } else {
        let toks = ws_tokens(line);
        if toks.len() == 0 {
            v
        } else if toks[0].len() == 1 && toks[0][0] == 118 {
            ParseView { verts: v.verts + 1, ..v }
        } else if toks[0].len() == 2 && toks[0][0] == 118 && toks[0][1] == 110 {
            ParseView { normals: v.normals + 1, ..v }
        } else if toks[0].len() == 2 && toks[0][0] == 118 && toks[0][1] == 116 {
            ParseView { texs: v.texs + 1, ..v }
        } else if toks[0].len() == 1 && toks[0][0] == 102 {
            ParseView {
                pending: v.pending + toks.skip(1).map_values(
                    |t: Seq<u8>|
                        spec_face_marker(t, v.verts as int, v.texs as int, v.normals as int),
                ).push(FaceMarker::End),
                ..v
            }
        } else if toks[0].len() == 1 && toks[0][0] == 111 {
            ParseView {
                objects: flushed_objects(v),
                pending: Seq::empty(),
                last_name: if toks.len() >= 2 {
                    toks[1]
                } else {
                    unknown_name_bytes()
                },
                ..v
            }
        } else {
            v
        }
    }
}

/// The parse view of a line sequence: the fold of the line step from the
/// empty state.
pub open spec fn spec_parse(lines: Seq<Seq<u8>>) -> ParseView
    decreases lines.len(),
{
    if lines.len() == 0 {
        ParseView {
            verts: 0,
            texs: 0,
            normals: 0,
            objects: Seq::empty(),
            last_name: Seq::empty(),
            pending: Seq::empty(),
        }
    } else {
        spec_line_step(spec_parse(lines.drop_last()), lines.last())
    }
}

/// The objects an OBJ text parses to: the flushed objects of the parse of
/// its lines, in order of first appearance.
pub open spec fn spec_obj_objects(text: Seq<u8>) -> Seq<(Seq<u8>, Seq<FaceMarker>)> {
    flushed_objects(spec_parse(sep_fields(text, 10)))
}

/// The single material every OBJ object is rendered with: opaque white,
/// non-metallic, fully rough, untextured.
pub open spec fn default_obj_material(m: IntermediateMat) -> bool {
    &&& m.name is None
    &&& m.base_color@ == seq![ONE_BITS, ONE_BITS, ONE_BITS, ONE_BITS]
    &&& m.metallic == 0u32
    &&& m.roughness == ONE_BITS
    &&& !m.doublesided
    &&& m.base_color_texture is None
}

/// Build the default OBJ material.
fn make_obj_material() -> (m: IntermediateMat)
    ensures
        default_obj_material(m),
{
    let m = IntermediateMat {
        name: None,
        base_color: [ONE_BITS, ONE_BITS, ONE_BITS, ONE_BITS],
        metallic: 0u32,
        roughness: ONE_BITS,
        doublesided: false,
        base_color_texture: None,
    };
    proof {
        assert(m.base_color@ =~= seq![ONE_BITS, ONE_BITS, ONE_BITS, ONE_BITS]);
    }
    m
}

/// Import a wavefront OBJ file from its text.
///
/// Every comment line is skipped and every other line handled by its
/// directive. The result carries one mesh, one default material and one
/// child node per named object; geometry that precedes the first `o`
/// directive groups under a default-named object. The importer never
/// fails: unreadable numbers read as zero and corner references that
/// resolve outside the attribute lists yield default attributes, so
/// malformed content degrades per entry instead of aborting the file.
pub fn import_file<O: ScalarOps>(text: &[u8], ops: &mut O) -> (s: IntermediateScene)
    requires
        text@.len() + 4 <= 0x7fff_ffff,
    ensures
        s.wf(),
        s.published@.len() == 0,
        s.images@.len() == 0,
        s.samplers@.len() == 0,
        s.textures@.len() == 0,
        s.mats@.len() == s.meshes@.len(),
        forall|i: int| 0 <= i < s.mats@.len() ==> default_obj_material(#[trigger] s.mats@[i]),
        forall|i: int| 0 <= i < s.meshes@.len() ==> (#[trigger] s.meshes@[i]).material == i as u32,
        s.nodes matches Some(root) && {
            &&& root.name@.len() == 0
            &&& root.meshes@.len() == 0
            &&& root.children@.len() == s.meshes@.len()
            &&& forall|i: int|
                0 <= i < root.children@.len() ==> (#[trigger] root.children@[i]).meshes@ == seq![
                    i as u32,
                ] && root.children@[i].children@.len() == 0
        },
        s.meshes@.len() == spec_obj_objects(text@).len(),
        forall|i: int|
            0 <= i < spec_obj_objects(text@).len() ==> (#[trigger] s.nodes->0.children@[i]).name@
                == crate::text::string_of_bytes(spec_obj_objects(text@)[i].0),
        forall|i: int|
            0 <= i < spec_obj_objects(text@).len() && spec_obj_objects(text@)[i].1.len()
                <= 0xffff_fffe ==> (#[trigger] s.meshes@[i]).verts@.len() == distinct_defs(
                spec_obj_objects(text@)[i].1,
            ).len() && s.meshes@[i].indices@.len() == tri_count(spec_obj_objects(text@)[i].1),
{
    let mut state = WFObjectState::new();
    let lines = crate::text::split_fields(text, 10);
    proof {
        crate::text::lemma_sep_fields_len(text@, 10);
    }
    proof {
        assert(lines.deep_view().subrange(0, 0) =~= Seq::<Seq<u8>>::empty());
        assert(obj_map_view(state.obj_face_list@) =~= Seq::<(Seq<u8>, Seq<FaceMarker>)>::empty());
        assert(state.last_name@ =~= Seq::<u8>::empty());
        assert(state.last_face_list@ =~= Seq::<FaceMarker>::empty());
        assert(view_of(state) == spec_parse(Seq::<Seq<u8>>::empty()));
    }
    let mut j: usize = 0;
    while j < lines.len()
        invariant
            j <= lines@.len(),
            lines@.len() <= text@.len() + 1,
            lines.deep_view() == sep_fields(text@, 10),
            text@.len() + 4 <= 0x7fff_ffff,
            state.vert_list@.len() <= j,
            state.tex_list@.len() <= j,
            state.normal_list@.len() <= j,
            state.obj_face_list@.len() <= j + 1,
            view_of(state) == spec_parse(lines.deep_view().subrange(0, j as int)),
        decreases lines@.len() - j,
    {
        let ghost before = state;
        let line = lines[j].as_slice();
        proof {
            assert(lines.deep_view()[j as int] == lines@[j as int]@);
            assert(lines.deep_view().subrange(0, j + 1).drop_last() =~= lines.deep_view().subrange(
                0,
                j as int,
            ));
            assert(lines.deep_view().subrange(0, j + 1).last() == line@);
        }
        if !(line.len() > 0 && line[0] == 35) {
            state.handle(line, ops);
            proof {
                lemma_assoc_set_len(
                    obj_map_view(before.obj_face_list@),
                    flush_name(before),
                    before.last_face_list@,
                );
                lemma_flushed_view(before);
                let v0 = view_of(before);
                let v1 = spec_line_step(v0, line@);
                let toks = ws_tokens(line@);
                if toks.len() == 0 {
                    assert(view_of(state) == v1);
                } else if toks[0].len() == 1 && toks[0][0] == 102 {
                    assert(view_of(state).pending =~= v1.pending);
                    assert(view_of(state) == v1);
                } else if toks[0].len() == 1 && toks[0][0] == 111 {
                    assert(state.last_face_list@ =~= Seq::<FaceMarker>::empty());
                    assert(view_of(state) == v1);
                } else {
                    assert(view_of(state) == v1);
                }
            }
        } else {
            proof {
                assert(view_of(state) == spec_line_step(view_of(before), line@));
            }
        }
        j = j + 1;
    }
    proof {
        lemma_assoc_set_len(
            obj_map_view(state.obj_face_list@),
            flush_name(state),
            state.last_face_list@,
        );
        assert(lines.deep_view().subrange(0, lines.deep_view().len() as int)
            =~= lines.deep_view());
        lemma_flushed_view(state);
        assert(flushed_obj_list(state) == spec_obj_objects(text@));
    }
    let ghost parse_end = state;
    let mut packed = pack_wf_state(state, ops);
    proof {
        assert(packed@.len() <= parse_end.obj_face_list@.len() + 1);
    }
    let ghost target = spec_obj_objects(text@);
    let ghost packed0 = packed@;
    let mut mats: Vec<IntermediateMat> = Vec::new();
    let mut meshes: Vec<IntermediateMesh> = Vec::new();
    let mut children: Vec<IntermediateNode> = Vec::new();
    let mut i: usize = 0;
    while i < packed.len()
        invariant
            i <= packed@.len(),
            packed@.len() <= 0x7fff_ffff,
            packed@.len() == packed0.len(),
            packed0.len() == target.len(),
            mats@.len() == i,
            meshes@.len() == i,
            children@.len() == i,
            forall|k: int| i <= k < packed0.len() ==> packed@[k] == packed0[k],
            forall|k: int| 0 <= k < i ==> default_obj_material(#[trigger] mats@[k]),
            forall|k: int| 0 <= k < i ==> (#[trigger] meshes@[k]).material == k as u32,
            forall|k: int| 0 <= k < i ==> (#[trigger] meshes@[k]).wf(),
            forall|k: int|
                0 <= k < i ==> (#[trigger] meshes@[k]).verts == packed0[k].verts && meshes@[
                k].indices == packed0[k].faces,
            forall|k: int|
                0 <= k < i ==> (#[trigger] children@[k]).meshes@ == seq![k as u32]
                    && children@[k].children@.len() == 0 && children@[k].name@
                    == crate::text::string_of_bytes(packed0[k].name@),
            forall|k: int| 0 <= k < packed0.len() ==> (#[trigger] packed0[k]).wf(),
        decreases packed@.len() - i,
    {
        let mut tmp = PackedObj { name: Vec::new(), verts: Vec::new(), faces: Vec::new() };
        core::mem::swap(&mut tmp, &mut packed[i]);
        proof {
            assert(tmp == packed0[i as int]);
        }
        mats.push(make_obj_material());
        let mesh = IntermediateMesh { material: i as u32, verts: tmp.verts, indices: tmp.faces };
        proof {
            assert(mesh.wf());
        }
        meshes.push(mesh);
        let mvec: Vec<u32> = vec![i as u32];
        proof {
            assert(mvec@ =~= seq![i as u32]);
        }
        let node = IntermediateNode {
            name: crate::text::lossy_string(tmp.name.as_slice()),
            meshes: mvec,
            children: Vec::new(),
        };
        children.push(node);
        i = i + 1;
    }
    let root_name = "".to_owned();
    proof {
        reveal_strlit("");
    }
    let root = IntermediateNode { name: root_name, meshes: Vec::new(), children };
    let s = IntermediateScene {
        published: Vec::new(),
        images: Vec::new(),
        samplers: Vec::new(),
        textures: Vec::new(),
        mats,
        meshes,
        nodes: Some(root),
    };
    proof {
        assert forall|q: int| 0 <= q < s.nodes->0.children@.len() implies crate::intermediate::node_wf(
            #[trigger] s.nodes->0.children@[q],
            s.meshes@.len() as nat,
        ) by {
            let ch = s.nodes->0.children@[q];
            assert(ch.meshes@ == seq![q as u32]);
            assert(forall|w: int| 0 <= w < ch.meshes@.len() ==> (ch.meshes@[w] as nat) < s.meshes@.len());
        }
        assert(crate::intermediate::node_wf(s.nodes->0, s.meshes@.len() as nat));
        assert(s.wf());
    }
    s
}

} // verus!
