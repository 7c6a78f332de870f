//! The binary model decoder.
//!
//! A model file is a byte buffer with a fixed header: the four signature
//! bytes "IDST", 200 bytes of unused header fields, then four little-endian
//! 32-bit signed integers giving a texture count, a texture-table offset,
//! a texture-directory count and a texture-directory-table offset. Each
//! table points (through one more little-endian offset) at a run of
//! NUL-terminated UTF-8 strings. Decoding derives, for every directory and
//! texture pair, the two material paths the model may require.
//!
//! Every step of the decoder is specified here over the byte sequence of
//! the buffer, so the decoder's contract pins the whole result.

use vstd::prelude::*;
use vstd::string::*;
use vstd::utf8::*;

use crate::lowercase_path::fold_case;
use crate::lowercase_path::lower_of;
use crate::paths::clear_path;
use crate::paths::norm_slashes;

verus! {

/// The four signature bytes "IDST".
pub open spec fn signature_bytes() -> Seq<u8> {
    seq![0x49u8, 0x44u8, 0x53u8, 0x54u8]
}

/// Whether the buffer begins with the model signature.
pub open spec fn has_signature(b: Seq<u8>) -> bool {
    b.len() >= 4 && b.subrange(0, 4) == signature_bytes()
}

/// The little-endian 32-bit signed integer whose four bytes sit at `pos`.
pub open spec fn le_i32_of(b: Seq<u8>, pos: int) -> i32
    recommends
        0 <= pos,
        pos + 4 <= b.len(),
{
    let v = b[pos] + 0x100 * b[pos + 1] + 0x10000 * b[pos + 2] + 0x1000000 * b[pos + 3];
    if v < 0x8000_0000 {
        v as i32
    } else {
        (v - 0x1_0000_0000) as i32
    }
}

/// Where a 32-bit table offset lands as a cursor position. The cursor is
/// 64 bits wide and the offset is sign-extended into it, so a negative
/// offset becomes a huge position, where every read fails.
pub open spec fn pos_of(off: i32) -> int {
    if off >= 0 {
        off as int
    } else {
        off + 0x1_0000_0000_0000_0000
    }
}

/// The position of the NUL that ends the string starting at `p`, or the
/// buffer length where no NUL follows.
pub open spec fn cstr_end(b: Seq<u8>, p: int) -> int
    decreases b.len() - p,
{
    if p < 0 || p >= b.len() {
        b.len() as int
    } else if b[p] == 0 {
        p
    } else {
        cstr_end(b, p + 1)
    }
}

/// Whether a NUL-terminated string starts at `p`.
pub open spec fn has_cstr(b: Seq<u8>, p: int) -> bool {
    0 <= p && cstr_end(b, p) < b.len()
}

/// The bytes of the NUL-terminated string starting at `p`, NUL excluded.
pub open spec fn cstr_at(b: Seq<u8>, p: int) -> Seq<u8>
    recommends
        has_cstr(b, p),
{
    b.subrange(p, cstr_end(b, p))
}

/// The cursor position after `k` NUL-terminated strings have been read,
/// the first starting at `p`.
pub open spec fn chain_pos(b: Seq<u8>, p: int, k: nat) -> int
    decreases k,
{
    if k == 0 {
        p
    } else {
        cstr_end(b, chain_pos(b, p, (k - 1) as nat)) + 1
    }
}

/// Whether `n` NUL-terminated strings in a row start at `p`.
pub open spec fn cstrs_ok(b: Seq<u8>, p: int, n: nat) -> bool
    decreases n,
{
    n == 0 || (cstrs_ok(b, p, (n - 1) as nat) && has_cstr(b, chain_pos(b, p, (n - 1) as nat)))
}

/// The `n` NUL-terminated strings in a row starting at `p`.
pub open spec fn cstrs_at(b: Seq<u8>, p: int, n: nat) -> Seq<Seq<u8>>
    decreases n,
{
    if n == 0 {
        Seq::empty()
    } else {
        cstrs_at(b, p, (n - 1) as nat).push(cstr_at(b, chain_pos(b, p, (n - 1) as nat)))
    }
}

/// A chain that reads whole stays readable in every prefix.
pub proof fn lemma_cstrs_ok_monotone(b: Seq<u8>, p: int, m: nat, n: nat)
    requires
        m <= n,
        cstrs_ok(b, p, n),
    ensures
        cstrs_ok(b, p, m),
    decreases n,
{
    if m < n {
        lemma_cstrs_ok_monotone(b, p, m, (n - 1) as nat);
    }
}

/// A chain of `n` strings yields `n` strings.
pub proof fn lemma_cstrs_at_len(b: Seq<u8>, p: int, n: nat)
    ensures
        cstrs_at(b, p, n).len() == n,
    decreases n,
{
    if n > 0 {
        lemma_cstrs_at_len(b, p, (n - 1) as nat);
    }
}

/// Whether the fixed header fits in the buffer: signature, the 200 unused
/// bytes, and the four table fields.
pub open spec fn header_readable(b: Seq<u8>) -> bool {
    b.len() >= 220
}

/// The texture count field.
pub open spec fn spec_texture_count(b: Seq<u8>) -> i32 {
    le_i32_of(b, 204)
}

/// The texture-table offset field.
pub open spec fn spec_texture_offset(b: Seq<u8>) -> i32 {
    le_i32_of(b, 208)
}

/// The texture-directory count field.
pub open spec fn spec_texturedir_count(b: Seq<u8>) -> i32 {
    le_i32_of(b, 212)
}

/// The texture-directory-table offset field.
pub open spec fn spec_texturedir_offset(b: Seq<u8>) -> i32 {
    le_i32_of(b, 216)
}

/// How many directory strings the decoder reads: a negative count reads
/// none.
pub open spec fn n_dirs(b: Seq<u8>) -> nat {
    if spec_texturedir_count(b) >= 0 {
        spec_texturedir_count(b) as nat
    } else {
        0
    }
}

/// How many texture strings the decoder reads: a negative count reads
/// none.
pub open spec fn n_texs(b: Seq<u8>) -> nat {
    if spec_texture_count(b) >= 0 {
        spec_texture_count(b) as nat
    } else {
        0
    }
}

/// The position of the directory table.
pub open spec fn dir_table_pos(b: Seq<u8>) -> int {
    pos_of(spec_texturedir_offset(b))
}

/// Whether the directory table's own offset field can be read.
pub open spec fn dir_table_readable(b: Seq<u8>) -> bool {
    dir_table_pos(b) + 4 <= b.len()
}

/// Where the directory strings start: the directory table holds one more
/// absolute offset.
pub open spec fn dir_strings_pos(b: Seq<u8>) -> int {
    pos_of(le_i32_of(b, dir_table_pos(b)))
}

/// Whether all directory strings can be read.
pub open spec fn dirs_ok(b: Seq<u8>) -> bool {
    cstrs_ok(b, dir_strings_pos(b), n_dirs(b))
}

/// The raw bytes of the directory strings.
pub open spec fn raw_dirs(b: Seq<u8>) -> Seq<Seq<u8>> {
    cstrs_at(b, dir_strings_pos(b), n_dirs(b))
}

/// The position of the texture table.
pub open spec fn tex_table_pos(b: Seq<u8>) -> int {
    pos_of(spec_texture_offset(b))
}

/// Whether the texture table's own offset field can be read.
pub open spec fn tex_table_readable(b: Seq<u8>) -> bool {
    tex_table_pos(b) + 4 <= b.len()
}

/// The texture table's extra offset, relative to the table itself.
pub open spec fn tex_rel_offset(b: Seq<u8>) -> i32 {
    le_i32_of(b, tex_table_pos(b))
}

/// Whether the relative texture-string offset can be added to the table
/// offset without leaving 32 bits.
pub open spec fn tex_add_ok(b: Seq<u8>) -> bool {
    i32::MIN <= tex_rel_offset(b) + spec_texture_offset(b) <= i32::MAX
}

/// Where the texture strings start.
pub open spec fn tex_strings_pos(b: Seq<u8>) -> int
    recommends
        tex_add_ok(b),
{
    pos_of((tex_rel_offset(b) + spec_texture_offset(b)) as i32)
}

/// Whether all texture strings can be read.
pub open spec fn texs_ok(b: Seq<u8>) -> bool {
    cstrs_ok(b, tex_strings_pos(b), n_texs(b))
}

/// The raw bytes of the texture strings.
pub open spec fn raw_texs(b: Seq<u8>) -> Seq<Seq<u8>> {
    cstrs_at(b, tex_strings_pos(b), n_texs(b))
}

/// Whether every field and every string of the model can be read from the
/// buffer: this is exactly the case in which decoding does not report a
/// truncated buffer.
pub open spec fn raw_ok(b: Seq<u8>) -> bool {
    &&& has_signature(b)
    &&& header_readable(b)
    &&& dir_table_readable(b)
    &&& dirs_ok(b)
    &&& tex_table_readable(b)
    &&& tex_add_ok(b)
    &&& texs_ok(b)
}

/// Whether every string of the model is valid UTF-8.
pub open spec fn runs_decodable(b: Seq<u8>) -> bool {
    &&& forall|i: int| 0 <= i < raw_dirs(b).len() ==> valid_utf8(#[trigger] raw_dirs(b)[i])
    &&& forall|i: int| 0 <= i < raw_texs(b).len() ==> valid_utf8(#[trigger] raw_texs(b)[i])
}

/// Whether decoding the buffer succeeds.
pub open spec fn decode_ok(b: Seq<u8>) -> bool {
    raw_ok(b) && runs_decodable(b)
}

/// The decoded directory strings.
pub open spec fn decoded_dirs(b: Seq<u8>) -> Seq<Seq<char>> {
    raw_dirs(b).map_values(|r: Seq<u8>| decode_utf8(r))
}

/// The decoded texture strings.
pub open spec fn decoded_texs(b: Seq<u8>) -> Seq<Seq<char>> {
    raw_texs(b).map_values(|r: Seq<u8>| decode_utf8(r))
}

/// A cursor over the model buffer. Positions are 64 bits wide, so a
/// sign-extended negative offset is simply a position at which every
/// read fails.
struct ModelReader<'a> {
    buf: &'a Vec<u8>,
    pos: u64,
}

impl<'a> ModelReader<'a> {
    /// Moves the cursor to a 32-bit offset, sign-extended.
    fn set_pos(&mut self, off: i32)
        ensures
            final(self).buf == old(self).buf,
            final(self).pos as int == pos_of(off),
    {
        if off >= 0 {
            self.pos = off as u64;
        } else {
            let mag = (-(off as i64)) as u64;
            self.pos = (u64::MAX - mag) + 1;
        }
    }

    /// Moves the cursor forward by `n` bytes.
    fn skip(&mut self, n: u64)
        requires
            old(self).pos + n <= u64::MAX,
        ensures
            final(self).buf == old(self).buf,
            final(self).pos == old(self).pos + n,
    {
        self.pos = self.pos + n;
    }

    /// Reads `count` raw bytes, or reports that they are not all there.
    fn read_bytes(&mut self, count: usize) -> (r: Option<Vec<u8>>)
        ensures
            final(self).buf == old(self).buf,
            match r {
                Some(v) => {
                    &&& old(self).pos + count <= old(self).buf@.len()
                    &&& v@ == old(self).buf@.subrange(
                        old(self).pos as int,
                        old(self).pos + count,
                    )
                    &&& final(self).pos == old(self).pos + count
                },
                None => {
                    &&& old(self).pos + count > old(self).buf@.len()
                    &&& *final(self) == *old(self)
                },
            },
    {
        let len = self.buf.len() as u64;
        if self.pos > len || len - self.pos < count as u64 {
            return None;
        }
        let start = self.pos as usize;
        let mut out: Vec<u8> = Vec::new();
        proof {
            assert(out@ =~= self.buf@.subrange(start as int, start as int));
        }
        let mut k: usize = 0;
        while k < count
            invariant
                self.buf == old(self).buf,
                self.pos == old(self).pos,
                start == old(self).pos,
                start + count <= self.buf@.len(),
                self.buf@.len() <= usize::MAX,
                k <= count,
                out@ == self.buf@.subrange(start as int, start + k),
            decreases count - k,
        {
            out.push(self.buf[start + k]);
            proof {
                assert(out@ =~= self.buf@.subrange(start as int, start + k + 1));
            }
            k = k + 1;
        }
        self.pos = self.pos + count as u64;
        Some(out)
    }

    /// Reads one little-endian 32-bit signed integer.
    fn read_i32(&mut self) -> (r: Option<i32>)
        ensures
            final(self).buf == old(self).buf,
            match r {
                Some(v) => {
                    &&& old(self).pos + 4 <= old(self).buf@.len()
                    &&& v == le_i32_of(old(self).buf@, old(self).pos as int)
                    &&& final(self).pos == old(self).pos + 4
                },
                None => {
                    &&& old(self).pos + 4 > old(self).buf@.len()
                    &&& *final(self) == *old(self)
                },
            },
    {
        let len = self.buf.len() as u64;
        if self.pos >= len || len - self.pos < 4 {
            return None;
        }
        let p = self.pos as usize;
        let b0 = self.buf[p] as u32;
        let b1 = self.buf[p + 1] as u32;
        let b2 = self.buf[p + 2] as u32;
        let b3 = self.buf[p + 3] as u32;
        let le: u32 = b0 + 0x100 * b1 + 0x10000 * b2 + 0x1000000 * b3;
        let v: i32 = if le < 0x8000_0000 {
            le as i32
        } else {
            ((le - 0x8000_0000) as i32) + i32::MIN
        };
        self.pos = self.pos + 4;
        Some(v)
    }

    /// Reads bytes up to the next NUL, or reports that none follows.
    fn read_c_str(&mut self) -> (r: Option<Vec<u8>>)
        ensures
            final(self).buf == old(self).buf,
            match r {
                Some(v) => {
                    &&& has_cstr(old(self).buf@, old(self).pos as int)
                    &&& v@ == cstr_at(old(self).buf@, old(self).pos as int)
                    &&& final(self).pos == cstr_end(old(self).buf@, old(self).pos as int) + 1
                },
                None => {
                    &&& !has_cstr(old(self).buf@, old(self).pos as int)
                    &&& *final(self) == *old(self)
                },
            },
    {
        let ghost b = self.buf@;
        let ghost p0 = self.pos as int;
        let len = self.buf.len() as u64;
        if self.pos >= len {
            return None;
        }
        let mut q: usize = self.pos as usize;
        let mut out: Vec<u8> = Vec::new();
        proof {
            assert(out@ =~= b.subrange(p0, p0));
        }
        loop
            invariant
                self.buf == old(self).buf,
                self.pos == old(self).pos,
                b == self.buf@,
                p0 == self.pos as int,
                p0 <= q <= b.len(),
                cstr_end(b, p0) == cstr_end(b, q as int),
                out@ == b.subrange(p0, q as int),
            decreases b.len() - q,
        {
            if q >= self.buf.len() {
                return None;
            }
            let byte = self.buf[q];
            if byte == 0 {
                proof {
                    assert(cstr_end(b, q as int) == q);
                    assert(out@ == cstr_at(b, p0));
                }
                self.pos = (q as u64) + 1;
                return Some(out);
            }
            out.push(byte);
            proof {
                assert(out@ =~= b.subrange(p0, q + 1));
            }
            q = q + 1;
        }
    }
}

/// One derived material path: the fixed prefix, a directory, a texture and
/// an extension, slash-normalized and case-folded.
pub open spec fn material_path(dir: Seq<char>, tex: Seq<char>, ext: Seq<char>) -> Seq<char> {
    lower_of(norm_slashes("materials\\"@ + dir + tex + ext))
}

/// The two candidate paths of one directory and texture pair: the decoder
/// cannot tell which of the two file kinds exists, so both count as used.
pub open spec fn pair_paths(dir: Seq<char>, tex: Seq<char>) -> Seq<Seq<char>> {
    seq![material_path(dir, tex, ".vtf"@), material_path(dir, tex, ".vmt"@)]
}

/// The candidate paths of one directory, over all textures.
pub open spec fn dir_paths(dir: Seq<char>, texs: Seq<Seq<char>>) -> Seq<Seq<char>>
    decreases texs.len(),
{
    if texs.len() == 0 {
        Seq::empty()
    } else {
        dir_paths(dir, texs.drop_last()) + pair_paths(dir, texs.last())
    }
}

/// Every derived material path of a model: the cross product of its
/// directories and textures, two paths per pair, in decoding order.
pub open spec fn material_paths(dirs: Seq<Seq<char>>, texs: Seq<Seq<char>>) -> Seq<Seq<char>>
    decreases dirs.len(),
{
    if dirs.len() == 0 {
        Seq::empty()
    } else {
        material_paths(dirs.drop_last(), texs) + dir_paths(dirs.last(), texs)
    }
}

/// One directory derives two paths per texture.
pub proof fn lemma_dir_paths_len(dir: Seq<char>, texs: Seq<Seq<char>>)
    ensures
        dir_paths(dir, texs).len() == 2 * texs.len(),
    decreases texs.len(),
{
    if texs.len() > 0 {
        lemma_dir_paths_len(dir, texs.drop_last());
    }
}

/// A model with `d` directories and `t` textures derives exactly
/// `2 * d * t` material paths.
pub proof fn lemma_material_paths_len(dirs: Seq<Seq<char>>, texs: Seq<Seq<char>>)
    ensures
        material_paths(dirs, texs).len() == 2 * dirs.len() * texs.len(),
    decreases dirs.len(),
{
    if dirs.len() == 0 {
        assert(2 * dirs.len() * texs.len() == 0) by (nonlinear_arith)
            requires
                dirs.len() == 0,
        ;
    } else {
        lemma_material_paths_len(dirs.drop_last(), texs);
        lemma_dir_paths_len(dirs.last(), texs);
        assert(dirs.drop_last().len() == dirs.len() - 1);
        assert(material_paths(dirs, texs).len() == material_paths(dirs.drop_last(), texs).len()
            + dir_paths(dirs.last(), texs).len());
        assert(material_paths(dirs, texs).len() == 2 * (dirs.len() - 1) * texs.len() + 2
            * texs.len());
        assert(material_paths(dirs, texs).len() == 2 * dirs.len() * texs.len())
            by (nonlinear_arith)
            requires
                material_paths(dirs, texs).len() == 2 * (dirs.len() - 1) * texs.len() + 2
                    * texs.len(),
        ;
    }
}

/// The signature that a buffer carried instead of "IDST".
#[derive(Debug)]
pub struct ErrorModelFormat {
    pub signature: Vec<u8>,
}

/// Why a model buffer failed to decode.
#[derive(Debug)]
pub enum ModelError {
    /// The buffer does not begin with the model signature; the bytes found
    /// in its place are carried along.
    Format(ErrorModelFormat),
    /// A field or string ran past the end of the buffer.
    Truncation,
    /// A directory or texture string is not valid UTF-8.
    Encoding,
}

/// A decoded model: its texture directories, its texture names, and every
/// material path derived from them.
#[derive(Debug)]
pub struct ParsedModel {
    pub directories: Vec<String>,
    pub textures: Vec<String>,
    pub used_paths: Vec<String>,
}

/// Relies on String::from_utf8: it succeeds exactly on valid UTF-8 input
/// and yields the decoded characters.
#[verifier::external_body]
fn vec_to_string(v: Vec<u8>) -> (r: Option<String>)
    ensures
        r is Some <==> valid_utf8(v@),
        r is Some ==> r.unwrap()@ == decode_utf8(v@),
{
    match String::from_utf8(v) {
        Ok(s) => Some(s),
        Err(_) => None,
    }
}

/// Builds one material path from a directory, a texture and an extension.
fn material_file_path(dir: &String, tex: &String, ext: &str) -> (r: String)
    ensures
        r@ == material_path(dir@, tex@, ext@),
{
    let mut s = String::from_str("materials\\");
    s.append(dir.as_str());
    s.append(tex.as_str());
    s.append(ext);
    proof {
        assert(s@ =~= "materials\\"@ + dir@ + tex@ + ext@);
    }
    let cleared = clear_path(&s);
    fold_case(cleared.as_str())
}

/// Derives every material path of the decoded directories and textures,
/// in decoding order.
fn derive_material_paths(directories: &Vec<String>, textures: &Vec<String>) -> (r: Vec<String>)
    ensures
        r.deep_view() == material_paths(directories.deep_view(), textures.deep_view()),
{
    let ghost dv = directories.deep_view();
    let ghost tv = textures.deep_view();
    let mut out: Vec<String> = Vec::new();
    proof {
        assert(dv.take(0) =~~= Seq::<Seq<char>>::empty());
        assert(out.deep_view() =~~= material_paths(dv.take(0), tv));
    }
    let mut i: usize = 0;
    while i < directories.len()
        invariant
            dv == directories.deep_view(),
            tv == textures.deep_view(),
            i <= dv.len(),
            out.deep_view() =~~= material_paths(dv.take(i as int), tv),
        decreases dv.len() - i,
    {
        let mut j: usize = 0;
        proof {
            assert(tv.take(0) =~~= Seq::<Seq<char>>::empty());
            assert(out.deep_view() =~~= material_paths(dv.take(i as int), tv) + dir_paths(
                dv[i as int],
                tv.take(0),
            ));
        }
        while j < textures.len()
            invariant
                dv == directories.deep_view(),
                tv == textures.deep_view(),
                i < dv.len(),
                j <= tv.len(),
                out.deep_view() =~~= material_paths(dv.take(i as int), tv) + dir_paths(
                    dv[i as int],
                    tv.take(j as int),
                ),
            decreases tv.len() - j,
        {
            let ghost prev = out.deep_view();
            let vtf = material_file_path(&directories[i], &textures[j], ".vtf");
            let vmt = material_file_path(&directories[i], &textures[j], ".vmt");
            out.push(vtf);
            out.push(vmt);
            proof {
                assert(tv.take(j + 1).drop_last() =~~= tv.take(j as int));
                assert(tv.take(j + 1).last() == tv[j as int]);
                assert(dir_paths(dv[i as int], tv.take(j + 1)) == dir_paths(
                    dv[i as int],
                    tv.take(j as int),
                ) + pair_paths(dv[i as int], tv[j as int]));
                assert(out.deep_view() =~~= prev + pair_paths(dv[i as int], tv[j as int]));
            }
            j = j + 1;
        }
        proof {
            assert(tv.take(tv.len() as int) =~~= tv);
            assert(dv.take(i + 1).drop_last() =~~= dv.take(i as int));
            assert(dv.take(i + 1).last() == dv[i as int]);
            assert(material_paths(dv.take(i + 1), tv) == material_paths(dv.take(i as int), tv)
                + dir_paths(dv[i as int], tv));
        }
        i = i + 1;
    }
    proof {
        assert(dv.take(dv.len() as int) =~~= dv);
    }
    out
}

/// Decodes each raw string as UTF-8, or reports which cannot be decoded.
fn decode_runs(runs: &Vec<Vec<u8>>) -> (r: Option<Vec<String>>)
    ensures
        match r {
            Some(v) => {
                &&& v@.len() == runs@.len()
                &&& forall|t: int|
                    0 <= t < runs@.len() ==> valid_utf8(#[trigger] runs.deep_view()[t])
                &&& forall|t: int|
                    0 <= t < runs@.len() ==> #[trigger] v.deep_view()[t] == decode_utf8(
                        runs.deep_view()[t],
                    )
            },
            None => exists|t: int|
                0 <= t < runs@.len() && !valid_utf8(#[trigger] runs.deep_view()[t]),
        },
{
    let mut out: Vec<String> = Vec::new();
    let mut i: usize = 0;
    while i < runs.len()
        invariant
            i <= runs@.len(),
            out@.len() == i,
            forall|t: int| 0 <= t < i ==> valid_utf8(#[trigger] runs.deep_view()[t]),
            forall|t: int|
                0 <= t < i ==> #[trigger] out.deep_view()[t] == decode_utf8(runs.deep_view()[t]),
        decreases runs@.len() - i,
    {
        let run = runs[i].clone();
        proof {
            assert(run@ =~= runs.deep_view()[i as int]);
        }
        match vec_to_string(run) {
            Some(s) => {
                let ghost prev = out.deep_view();
                let ghost sv = s@;
                out.push(s);
                proof {
                    assert(out.deep_view() =~~= prev.push(sv));
                    assert(out.deep_view()[i as int] == decode_utf8(runs.deep_view()[i as int]));
                    assert forall|t: int| 0 <= t < i implies #[trigger] out.deep_view()[t]
                        == decode_utf8(runs.deep_view()[t]) by {
                        assert(out.deep_view()[t] == prev[t]);
                    }
                }
            },
            None => {
                proof {
                    assert(!valid_utf8(runs.deep_view()[i as int]));
                }
                return None;
            },
        }
        i = i + 1;
    }
    Some(out)
}

/// What a successful decode returns: the decoded directory and texture
/// strings, and every material path derived from them.
pub open spec fn parse_ok_result(b: Seq<u8>, m: ParsedModel) -> bool {
    &&& m.directories.deep_view() == decoded_dirs(b)
    &&& m.textures.deep_view() == decoded_texs(b)
    &&& m.used_paths.deep_view() == material_paths(decoded_dirs(b), decoded_texs(b))
}

/// The bytes that a signature mismatch reports: the first four, or the
/// whole buffer where it is shorter.
pub open spec fn reported_signature(b: Seq<u8>) -> Seq<u8> {
    if b.len() < 4 {
        b
    } else {
        b.take(4)
    }
}

/// A model buffer decodes to exactly the counts its header names: as many
/// directory strings and texture strings as the two count fields say
/// (a negative count reading as none), and two derived material paths per
/// directory and texture pair.
pub proof fn lemma_decode_counts(b: Seq<u8>)
    ensures
        raw_dirs(b).len() == n_dirs(b),
        raw_texs(b).len() == n_texs(b),
        decoded_dirs(b).len() == n_dirs(b),
        decoded_texs(b).len() == n_texs(b),
        material_paths(decoded_dirs(b), decoded_texs(b)).len() == 2 * n_dirs(b) * n_texs(b),
{
    lemma_cstrs_at_len(b, dir_strings_pos(b), n_dirs(b));
    lemma_cstrs_at_len(b, tex_strings_pos(b), n_texs(b));
    lemma_material_paths_len(decoded_dirs(b), decoded_texs(b));
}

/// Which failure each decode error reports.
pub open spec fn parse_error_cause(b: Seq<u8>, e: ModelError) -> bool {
    match e {
        ModelError::Format(f) => !has_signature(b) && f.signature@ == reported_signature(b),
        ModelError::Truncation => has_signature(b) && !raw_ok(b),
        ModelError::Encoding => raw_ok(b) && !runs_decodable(b),
    }
}

/// Decodes a model buffer.
///
/// The result is pinned down completely: decoding succeeds exactly when
/// the buffer is well formed (`raw_ok`) and its strings are valid UTF-8
/// (`runs_decodable`); a missing signature reports a format error with the
/// bytes found; any field or string past the end of the buffer reports
/// truncation; an undecodable string reports an encoding error. No input
/// panics, and no failure returns a partial result.
pub fn parse_model(file: &Vec<u8>) -> (r: Result<ParsedModel, ModelError>)
    ensures
        match r {
            Ok(m) => decode_ok(file@) && parse_ok_result(file@, m),
            Err(e) => parse_error_cause(file@, e),
        },
{
    let ghost b = file@;
    let mut reader = ModelReader { buf: file, pos: 0 };
    let sig = match reader.read_bytes(4) {
        Some(s) => s,
        None => {
            let partial = file.clone();
            proof {
                assert(b.len() < 4);
                assert(!has_signature(b));
                assert(partial@ =~= b);
            }
            return Err(ModelError::Format(ErrorModelFormat { signature: partial }));
        },
    };
    if !(sig[0] == 0x49 && sig[1] == 0x44 && sig[2] == 0x53 && sig[3] == 0x54) {
        proof {
            assert(sig@ =~= b.take(4));
            if b.subrange(0, 4) == signature_bytes() {
                assert(b.subrange(0, 4)[0] == 0x49);
                assert(b.subrange(0, 4)[1] == 0x44);
                assert(b.subrange(0, 4)[2] == 0x53);
                assert(b.subrange(0, 4)[3] == 0x54);
                assert(sig@ =~= b.subrange(0, 4));
            }
        }
        return Err(ModelError::Format(ErrorModelFormat { signature: sig }));
    }
    proof {
        assert(sig@ =~= b.subrange(0, 4));
        assert(sig@ =~= signature_bytes());
        assert(has_signature(b));
    }
    reader.skip(200);
    let texture_count = match reader.read_i32() {
        Some(v) => v,
        None => {
            return Err(ModelError::Truncation);
        },
    };
    let texture_offset = match reader.read_i32() {
        Some(v) => v,
        None => {
            return Err(ModelError::Truncation);
        },
    };
    let texturedir_count = match reader.read_i32() {
        Some(v) => v,
        None => {
            return Err(ModelError::Truncation);
        },
    };
    let texturedir_offset = match reader.read_i32() {
        Some(v) => v,
        None => {
            return Err(ModelError::Truncation);
        },
    };
    proof {
        assert(header_readable(b));
        assert(texture_count == spec_texture_count(b));
        assert(texture_offset == spec_texture_offset(b));
        assert(texturedir_count == spec_texturedir_count(b));
        assert(texturedir_offset == spec_texturedir_offset(b));
    }
    // The directory table: one absolute offset, then the directory strings.
    reader.set_pos(texturedir_offset);
    let texturedir_string_offset = match reader.read_i32() {
        Some(v) => v,
        None => {
            proof {
                assert(!dir_table_readable(b));
            }
            return Err(ModelError::Truncation);
        },
    };
    reader.set_pos(texturedir_string_offset);
    let nd: usize = if texturedir_count > 0 {
        texturedir_count as usize
    } else {
        0
    };
    proof {
        assert(nd == n_dirs(b));
        assert(reader.pos as int == dir_strings_pos(b));
    }
    let ghost dsp = dir_strings_pos(b);
    let mut dirs_raw: Vec<Vec<u8>> = Vec::new();
    let mut k: usize = 0;
    while k < nd
        invariant
            b == file@,
            reader.buf@ == b,
            has_signature(b),
            nd == n_dirs(b),
            k <= nd,
            reader.pos as int == chain_pos(b, dsp, k as nat),
            dsp == dir_strings_pos(b),
            cstrs_ok(b, dsp, k as nat),
            dirs_raw.deep_view() == cstrs_at(b, dsp, k as nat),
        decreases nd - k,
    {
        match reader.read_c_str() {
            Some(s) => {
                let ghost prev = dirs_raw.deep_view();
                let ghost sv = s@;
                dirs_raw.push(s);
                proof {
                    assert(dirs_raw.deep_view() =~~= prev.push(sv));
                    assert(dirs_raw.deep_view() =~~= cstrs_at(b, dsp, (k + 1) as nat));
                }
                k = k + 1;
            },
            None => {
                proof {
                    assert(!cstrs_ok(b, dsp, (k + 1) as nat));
                    if dirs_ok(b) {
                        lemma_cstrs_ok_monotone(b, dsp, (k + 1) as nat, n_dirs(b));
                    }
                    assert(!raw_ok(b));
                }
                return Err(ModelError::Truncation);
            },
        }
    }
    proof {
        assert(dirs_ok(b));
        assert(dirs_raw.deep_view() == raw_dirs(b));
    }
    // The texture table: one offset relative to the table itself, then the
    // texture strings.
    reader.set_pos(texture_offset);
    let texture_rel_offset = match reader.read_i32() {
        Some(v) => v,
        None => {
            proof {
                assert(!tex_table_readable(b));
            }
            return Err(ModelError::Truncation);
        },
    };
    if (texture_rel_offset >= 0 && texture_offset > i32::MAX - texture_rel_offset)
        || (texture_rel_offset < 0 && texture_offset < i32::MIN - texture_rel_offset) {
        proof {
            assert(!tex_add_ok(b));
        }
        return Err(ModelError::Truncation);
    }
    let texture_path_offset = texture_rel_offset + texture_offset;
    reader.set_pos(texture_path_offset);
    let nt: usize = if texture_count > 0 {
        texture_count as usize
    } else {
        0
    };
    proof {
        assert(nt == n_texs(b));
        assert(reader.pos as int == tex_strings_pos(b));
    }
    let ghost tsp = tex_strings_pos(b);
    let mut texs_raw: Vec<Vec<u8>> = Vec::new();
    let mut k2: usize = 0;
    while k2 < nt
        invariant
            b == file@,
            reader.buf@ == b,
            has_signature(b),
            header_readable(b),
            dir_table_readable(b),
            dirs_ok(b),
            tex_table_readable(b),
            tex_add_ok(b),
            nt == n_texs(b),
            k2 <= nt,
            reader.pos as int == chain_pos(b, tsp, k2 as nat),
            tsp == tex_strings_pos(b),
            cstrs_ok(b, tsp, k2 as nat),
            texs_raw.deep_view() == cstrs_at(b, tsp, k2 as nat),
        decreases nt - k2,
    {
        match reader.read_c_str() {
            Some(s) => {
                let ghost prev = texs_raw.deep_view();
                let ghost sv = s@;
                texs_raw.push(s);
                proof {
                    assert(texs_raw.deep_view() =~~= prev.push(sv));
                    assert(texs_raw.deep_view() =~~= cstrs_at(b, tsp, (k2 + 1) as nat));
                }
                k2 = k2 + 1;
            },
            None => {
                proof {
                    assert(!cstrs_ok(b, tsp, (k2 + 1) as nat));
                    if texs_ok(b) {
                        lemma_cstrs_ok_monotone(b, tsp, (k2 + 1) as nat, n_texs(b));
                    }
                    assert(!raw_ok(b));
                }
                return Err(ModelError::Truncation);
            },
        }
    }
    proof {
        assert(texs_ok(b));
        assert(texs_raw.deep_view() == raw_texs(b));
        assert(raw_ok(b));
        lemma_cstrs_at_len(b, dsp, n_dirs(b));
        lemma_cstrs_at_len(b, tsp, n_texs(b));
    }
    // Decode the strings and derive the material paths.
    let directories = match decode_runs(&dirs_raw) {
        Some(v) => v,
        None => {
            return Err(ModelError::Encoding);
        },
    };
    let textures = match decode_runs(&texs_raw) {
        Some(v) => v,
        None => {
            return Err(ModelError::Encoding);
        },
    };
    proof {
        assert(runs_decodable(b));
        assert(directories.deep_view() =~~= decoded_dirs(b));
        assert(textures.deep_view() =~~= decoded_texs(b));
    }
    let used_paths = derive_material_paths(&directories, &textures);
    Ok(ParsedModel { directories, textures, used_paths })
}

} // verus!
