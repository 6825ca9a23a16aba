//! The `multipart/form-data` framing of upload requests.
//!
//! A request body carries named parts between boundary delimiters:
//!
//! ```text
//! --BOUNDARY\r\n
//! <headers containing  name="...">\r\n
//! \r\n
//! <data>\r\n
//! --BOUNDARY\r\n
//! ...
//! --BOUNDARY--
//! ```
//!
//! The grammar is stated by the `spec_*` functions here and the executable
//! parser is proved to follow it exactly.  The chunk endpoint needs two
//! named parts: `index`, the offset the caller believes is committed, and
//! `chunk`, the raw bytes to append to the open flash target.

use vstd::prelude::*;
use crate::scan::{match_at, spec_find, matches_at, find_sub, vec_range, bytes_eq};

verus! {

/// `"--"`.
pub open spec fn dash_dash() -> Seq<u8> {
    seq![45u8, 45u8]
}

/// `"\r\n"`.
pub open spec fn crlf() -> Seq<u8> {
    seq![13u8, 10u8]
}

/// `"\r\n\r\n"`: the end of a part's header block.
pub open spec fn header_end() -> Seq<u8> {
    seq![13u8, 10u8, 13u8, 10u8]
}

/// `"name=\""`: what introduces a part's name inside its headers.
pub open spec fn name_intro() -> Seq<u8> {
    seq![110u8, 97u8, 109u8, 101u8, 61u8, 34u8]
}

/// `"\""`.
pub open spec fn quote() -> Seq<u8> {
    seq![34u8]
}

/// `"multipart/form-data"`.
pub open spec fn form_data_label() -> Seq<u8> {
    seq![109u8, 117u8, 108u8, 116u8, 105u8, 112u8, 97u8, 114u8, 116u8, 47u8,
        102u8, 111u8, 114u8, 109u8, 45u8, 100u8, 97u8, 116u8, 97u8]
}

/// `"boundary="`.
pub open spec fn boundary_intro() -> Seq<u8> {
    seq![98u8, 111u8, 117u8, 110u8, 100u8, 97u8, 114u8, 121u8, 61u8]
}

/// `"index"`.
pub open spec fn index_name() -> Seq<u8> {
    seq![105u8, 110u8, 100u8, 101u8, 120u8]
}

/// `"chunk"`.
pub open spec fn chunk_name() -> Seq<u8> {
    seq![99u8, 104u8, 117u8, 110u8, 107u8]
}

/// One named part of a form body.
#[verifier::ext_equal]
pub struct PartModel {
    pub name: Seq<u8>,
    pub data: Seq<u8>,
}

/// The name a part's header block declares: the bytes between the first
/// `name="` and the next `"`.
pub open spec fn spec_header_name(h: Seq<u8>) -> Option<Seq<u8>> {
    match spec_find(h, name_intro(), 0) {
        None => None,
        Some(i) => match spec_find(h, quote(), i + 6) {
            None => None,
            Some(j) => Some(h.subrange(i + 6, j)),
        },
    }
}

/// The parts of `body` from position `pos`, which stands just after an
/// occurrence of the delimiter `delim` (`"--"` + boundary).  `"--"` closes
/// the message; `"\r\n"` opens one more part, whose headers run to the first
/// blank line and whose data runs to the next `"\r\n"` + delimiter.
pub open spec fn spec_parse_parts(body: Seq<u8>, delim: Seq<u8>, pos: int) -> Option<
    Seq<PartModel>,
>
    decreases body.len() - pos,
    when 0 <= pos <= body.len()
{
    if match_at(body, dash_dash(), pos) {
        Some(Seq::empty())
    } else if match_at(body, crlf(), pos) {
        let hstart = pos + 2;
        match spec_find(body, header_end(), hstart) {
            None => None,
            Some(hend) => match spec_header_name(body.subrange(hstart, hend)) {
                None => None,
                Some(nm) => {
                    let dstart = hend + 4;
                    match spec_find(body, crlf() + delim, dstart) {
                        None => None,
                        Some(dend) => {
                            let next = dend + 2 + delim.len();
                            if pos < next <= body.len() {
                                match spec_parse_parts(body, delim, next) {
                                    None => None,
                                    Some(rest) => Some(
                                        seq![
                                            PartModel {
                                                name: nm,
                                                data: body.subrange(dstart, dend),
                                            },
                                        ] + rest,
                                    ),
                                }
                            } else {
                                None
                            }
                        },
                    }
                },
            },
        }
    } else {
        None
    }
}

/// The parts of a whole message: it must open with `"--"` + boundary.
pub open spec fn spec_parse_message(body: Seq<u8>, boundary: Seq<u8>) -> Option<
    Seq<PartModel>,
> {
    let delim = dash_dash() + boundary;
    if match_at(body, delim, 0) {
        spec_parse_parts(body, delim, delim.len() as int)
    } else {
        None
    }
}

/// The data of the last part named `name`, if any; a later part of the same
/// name shadows an earlier one, as the ingress reads entries in order.
pub open spec fn last_named(parts: Seq<PartModel>, name: Seq<u8>) -> Option<Seq<u8>>
    decreases parts.len(),
{
    if parts.len() == 0 {
        None
    } else {
        let rest = last_named(parts.drop_first(), name);
        if rest is Some {
            rest
        } else if parts[0].name == name {
            Some(parts[0].data)
        } else {
            None
        }
    }
}

/// What the chunk endpoint reads out of a form body: the `index` and
/// `chunk` parts, each present or not.
pub struct FormFields {
    pub index_text: Option<Vec<u8>>,
    pub chunk_data: Option<Vec<u8>>,
}

/// The view of an optional byte vector.
pub open spec fn opt_bytes(o: Option<Vec<u8>>) -> Option<Seq<u8>> {
    match o {
        None => None,
        Some(v) => Some(v@),
    }
}

/// The two fields the chunk endpoint needs, as the grammar defines them.
pub open spec fn spec_form_fields(body: Seq<u8>, boundary: Seq<u8>) -> Option<
    (Option<Seq<u8>>, Option<Seq<u8>>),
> {
    match spec_parse_message(body, boundary) {
        None => None,
        Some(parts) => Some(
            (last_named(parts, index_name()), last_named(parts, chunk_name())),
        ),
    }
}

fn dash_dash_vec() -> (r: Vec<u8>)
    ensures
        r@ == dash_dash(),
{
    let mut r: Vec<u8> = Vec::new();
    r.push(45);
    r.push(45);
    assert(r@ =~= dash_dash());
    r
}

fn crlf_vec() -> (r: Vec<u8>)
    ensures
        r@ == crlf(),
{
    let mut r: Vec<u8> = Vec::new();
    r.push(13);
    r.push(10);
    assert(r@ =~= crlf());
    r
}

fn header_end_vec() -> (r: Vec<u8>)
    ensures
        r@ == header_end(),
{
    let mut r: Vec<u8> = Vec::new();
    r.push(13);
    r.push(10);
    r.push(13);
    r.push(10);
    assert(r@ =~= header_end());
    r
}

fn name_intro_vec() -> (r: Vec<u8>)
    ensures
        r@ == name_intro(),
{
    let mut r: Vec<u8> = Vec::new();
    r.push(110);
    r.push(97);
    r.push(109);
    r.push(101);
    r.push(61);
    r.push(34);
    assert(r@ =~= name_intro());
    r
}

fn form_data_label_vec() -> (r: Vec<u8>)
    ensures
        r@ == form_data_label(),
{
    let mut r: Vec<u8> = Vec::new();
    r.push(109);
    r.push(117);
    r.push(108);
    r.push(116);
    r.push(105);
    r.push(112);
    r.push(97);
    r.push(114);
    r.push(116);
    r.push(47);
    r.push(102);
    r.push(111);
    r.push(114);
    r.push(109);
    r.push(45);
    r.push(100);
    r.push(97);
    r.push(116);
    r.push(97);
    assert(r@ =~= form_data_label());
    r
}

fn boundary_intro_vec() -> (r: Vec<u8>)
    ensures
        r@ == boundary_intro(),
{
    let mut r: Vec<u8> = Vec::new();
    r.push(98);
    r.push(111);
    r.push(117);
    r.push(110);
    r.push(100);
    r.push(97);
    r.push(114);
    r.push(121);
    r.push(61);
    assert(r@ =~= boundary_intro());
    r
}

/// A fresh vector holding `"index"`.
pub fn index_name_vec() -> (r: Vec<u8>)
    ensures
        r@ == index_name(),
{
    let mut r: Vec<u8> = Vec::new();
    r.push(105);
    r.push(110);
    r.push(100);
    r.push(101);
    r.push(120);
    assert(r@ =~= index_name());
    r
}

/// A fresh vector holding `"chunk"`.
pub fn chunk_name_vec() -> (r: Vec<u8>)
    ensures
        r@ == chunk_name(),
{
    let mut r: Vec<u8> = Vec::new();
    r.push(99);
    r.push(104);
    r.push(117);
    r.push(110);
    r.push(107);
    assert(r@ =~= chunk_name());
    r
}

/// The boundary declared by a `Content-Type` header value, if any: the value
/// must open with `multipart/form-data` and the boundary is everything after
/// the first `boundary=`.
pub open spec fn spec_boundary(ct: Option<Seq<u8>>) -> Option<Seq<u8>> {
    match ct {
        None => None,
        Some(s) => match spec_find(s, boundary_intro(), 0) {
            None => None,
            Some(i) => if i >= form_data_label().len() && match_at(
                s,
                form_data_label(),
                0,
            ) {
                Some(s.subrange(i + boundary_intro().len(), s.len() as int))
            } else {
                None
            },
        },
    }
}

/// Reads the boundary out of a `Content-Type` header value, exactly as
/// [`spec_boundary`] describes.
pub fn extract_boundary(ct: Option<&[u8]>) -> (r: Option<Vec<u8>>)
    ensures
        opt_bytes(r) == spec_boundary(
            match ct {
                None => None::<Seq<u8>>,
                Some(s) => Some(s@),
            },
        ),
{
    match ct {
        None => None,
        Some(s) => {
            let s_len = s.len();
            assert(s@.len() == s_len);
            let intro = boundary_intro_vec();
            match find_sub(s, intro.as_slice(), 0) {
                None => None,
                Some(i) => {
                    let label = form_data_label_vec();
                    if i >= label.len() && matches_at(s, label.as_slice(), 0) {
                        Some(vec_range(s, i + intro.len(), s.len()))
                    } else {
                        None
                    }
                },
            }
        },
    }
}

/// Parses the header block `h` for the part's declared name, exactly as
/// [`spec_header_name`] describes.
fn header_name(h: &[u8]) -> (r: Option<Vec<u8>>)
    ensures
        opt_bytes(r) == spec_header_name(h@),
{
    let h_len = h.len();
    assert(h@.len() == h_len);
    let intro = name_intro_vec();
    match find_sub(h, intro.as_slice(), 0) {
        None => None,
        Some(i) => {
            let mut q: Vec<u8> = Vec::new();
            q.push(34);
            assert(q@ =~= quote());
            match find_sub(h, q.as_slice(), i + 6) {
                None => None,
                Some(j) => Some(vec_range(h, i + 6, j)),
            }
        },
    }
}

fn parse_fields_from(body: &[u8], delim: &Vec<u8>, pos: usize) -> (r: Option<FormFields>)
    requires
        pos <= body@.len(),
    ensures
        match r {
            None => spec_parse_parts(body@, delim@, pos as int) is None,
            Some(f) => {
                &&& spec_parse_parts(body@, delim@, pos as int) is Some
                &&& opt_bytes(f.index_text) == last_named(
                    spec_parse_parts(body@, delim@, pos as int).unwrap(),
                    index_name(),
                )
                &&& opt_bytes(f.chunk_data) == last_named(
                    spec_parse_parts(body@, delim@, pos as int).unwrap(),
                    chunk_name(),
                )
            },
        },
    decreases body@.len() - pos,
{
    let dd = dash_dash_vec();
    if body.len() - pos >= 2 && matches_at(body, dd.as_slice(), pos) {
        return Some(FormFields { index_text: None, chunk_data: None });
    }
    let cr = crlf_vec();
    if !(body.len() - pos >= 2 && matches_at(body, cr.as_slice(), pos)) {
        proof {
            if match_at(body@, dash_dash(), pos as int) || match_at(
                body@,
                crlf(),
                pos as int,
            ) {
                assert(pos + 2 <= body@.len());
            }
        }
        return None;
    }
    let hstart = pos + 2;
    let he = header_end_vec();
    let hend = match find_sub(body, he.as_slice(), hstart) {
        None => {
            return None;
        },
        Some(hend) => hend,
    };
    let hdr = vec_range(body, hstart, hend);
    let nm = match header_name(hdr.as_slice()) {
        None => {
            return None;
        },
        Some(nm) => nm,
    };
    let dstart = hend + 4;
    let mut end_mark = crlf_vec();
    let mut delim_copy = vec_range(delim.as_slice(), 0, delim.len());
    end_mark.append(&mut delim_copy);
    assert(end_mark@ == crlf() + delim@);
    let dend = match find_sub(body, end_mark.as_slice(), dstart) {
        None => {
            return None;
        },
        Some(dend) => dend,
    };
    let data = vec_range(body, dstart, dend);
    let next = dend + 2 + delim.len();
    assert(pos < next <= body@.len());
    let rest = match parse_fields_from(body, delim, next) {
        None => {
            return None;
        },
        Some(rest) => rest,
    };
    let ghost parts = spec_parse_parts(body@, delim@, pos as int).unwrap();
    let ghost head = PartModel { name: nm@, data: data@ };
    proof {
        assert(parts =~= seq![head]
            + spec_parse_parts(body@, delim@, next as int).unwrap());
        assert(parts.drop_first() =~= spec_parse_parts(
            body@,
            delim@,
            next as int,
        ).unwrap());
        assert(index_name()[0] != chunk_name()[0]);
        assert(index_name() != chunk_name());
    }
    let mut fields = rest;
    if fields.index_text.is_none() && bytes_eq(nm.as_slice(), index_name_vec().as_slice()) {
        fields = FormFields { index_text: Some(data), chunk_data: fields.chunk_data };
    } else if fields.chunk_data.is_none() && bytes_eq(
        nm.as_slice(),
        chunk_name_vec().as_slice(),
    ) {
        fields = FormFields { index_text: fields.index_text, chunk_data: Some(data) };
    }
    Some(fields)
}

/// Parses a whole form body against `boundary`, returning the `index` and
/// `chunk` parts exactly as [`spec_form_fields`] describes.
pub fn parse_form(body: &[u8], boundary: &Vec<u8>) -> (r: Option<FormFields>)
    ensures
        match r {
            None => spec_form_fields(body@, boundary@) is None,
            Some(f) => {
                &&& spec_form_fields(body@, boundary@) is Some
                &&& opt_bytes(f.index_text) == spec_form_fields(
                    body@,
                    boundary@,
                ).unwrap().0
                &&& opt_bytes(f.chunk_data) == spec_form_fields(
                    body@,
                    boundary@,
                ).unwrap().1
            },
        },
{
    let mut delim = dash_dash_vec();
    let mut b_copy = vec_range(boundary.as_slice(), 0, boundary.len());
    delim.append(&mut b_copy);
    assert(delim@ == dash_dash() + boundary@);
    if body.len() >= delim.len() && matches_at(body, delim.as_slice(), 0) {
        parse_fields_from(body, &delim, delim.len())
    } else {
        proof {
            if match_at(body@, delim@, 0) {
                assert(body@.len() >= delim@.len());
            }
        }
        None
    }
}

} // verus!
