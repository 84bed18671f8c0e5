//! From a request to its answer: the request is checked, the name hashed, the
//! pattern painted and the image written.

use crate::canvas::{allocatable, Color};
use crate::digest::{
    fill_color_spec, pattern_bits, select_digest, select_digest_spec, MAX_INPUT_BYTES,
};
use crate::encode::{encodable, encode, encode_spec, BMP_HEADER_BYTES};
use crate::grid::lemma_bit_budget;
use crate::params::{requested, Format, RenderParameters};
use crate::query::{pairs_of, QueryParams};
use crate::rejection::{status_of, Rejection};
use crate::render::{pattern, render};
use crate::rounding::closest_multiple_spec;
use crate::text::{chars_of, same_chars};
use vstd::prelude::*;
use vstd::string::*;

verus! {

/// The only request method that is served.
pub open spec fn served_method() -> Seq<char> {
    "GET"@
}

/// The extension of a path that has none.
pub open spec fn default_extension() -> Seq<char> {
    "png"@
}

/// The view of a string that may be absent.
pub open spec fn text_of(s: Option<&str>) -> Option<Seq<char>> {
    match s {
        Some(s) => Some(s@),
        None => None,
    }
}

/// The pairs of a query string that may be absent.
pub open spec fn query_pairs(query: Option<Seq<char>>) -> Seq<(Seq<char>, Seq<char>)> {
    match query {
        Some(q) => pairs_of(q),
        None => Seq::empty(),
    }
}

/// The extension that a request goes by.
pub open spec fn extension_or_default(extension: Option<Seq<char>>) -> Seq<char> {
    match extension {
        Some(e) => e,
        None => default_extension(),
    }
}

/// The parameters of a request, or the first rule that it breaks: a name is
/// asked for first, then the rules on the parameters in their order.
pub open spec fn resolve_spec(
    file_name: Option<Seq<char>>,
    extension: Option<Seq<char>>,
    query: Option<Seq<char>>,
) -> Result<RenderParameters, Rejection> {
    let p = requested(query_pairs(query), extension_or_default(extension));
    if file_name is None || file_name->0.len() == 0 {
        Err(Rejection::MissingIdentifier)
    } else {
        match p.rejection() {
            Some(rejection) => Err(rejection),
            None => Ok(p),
        }
    }
}

/// The extension that a request goes by.
fn spelled_extension<'a>(extension: Option<&'a str>) -> (ext: &'a str)
    ensures
        ext@ == extension_or_default(text_of(extension)),
{
    match extension {
        Some(e) => e,
        None => "png",
    }
}

/// Reads and checks the parameters of a request for the file `file_name`
/// with the extension `extension` and the query string `query`.
pub fn resolve(file_name: Option<&str>, extension: Option<&str>, query: Option<&str>) -> (r: Result<
    RenderParameters,
    Rejection,
>)
    ensures
        r == resolve_spec(text_of(file_name), text_of(extension), text_of(query)),
        r matches Ok(p) ==> p.valid(),
{
    let named = match file_name {
        Some(name) => !name.is_empty(),
        None => false,
    };
    if !named {
        return Err(Rejection::MissingIdentifier);
    }
    let pairs = match query {
        Some(q) => QueryParams::parse(q),
        None => QueryParams::empty(),
    };
    let p = RenderParameters::from_query(&pairs, spelled_extension(extension));
    match p.check() {
        Ok(_) => Ok(p),
        Err(rejection) => Err(rejection),
    }
}

impl RenderParameters {
    /// Whether this machine can hold and write the image: its pixel buffer
    /// can be allocated, and the encoder can be handed its size.
    pub open spec fn in_reach(self) -> bool {
        let size = self.canvas_size() as nat;
        allocatable(size, size) && encodable(size, size, self.format)
    }

    /// Tests `in_reach`.
    pub fn fits(&self) -> (r: bool)
        ensures
            r == self.in_reach(),
    {
        let size: u64 = self.padded_size();
        proof {
            assert(isize::MAX >= 0x7fff_ffff);
            assert(isize::MAX <= 0x7fff_ffff_ffff_ffff);
            if size > 0x7fff_ffff {
                assert(4 * size * size > 0x7fff_ffff_ffff_ffff) by (nonlinear_arith)
                    requires
                        size > 0x7fff_ffff,
                ;
            } else {
                assert(4 * size * size <= 0xffff_ffff_ffff_ffff) by (nonlinear_arith)
                    requires
                        size <= 0x7fff_ffff,
                ;
                assert(4 * size * size == 4 * (size * size)) by (nonlinear_arith);
                assert(size * size <= 0x3fff_ffff_ffff_ffff) by (nonlinear_arith)
                    requires
                        size <= 0x7fff_ffff,
                ;
            }
        }
        if size == 0 || size > 0x7fff_ffff {
            return false;
        }
        let bytes: u64 = 4 * (size * size);
        if bytes > isize::MAX as u64 {
            return false;
        }
        match self.format {
            Format::Bmp => bytes <= 0xffff_ffff - BMP_HEADER_BYTES as u64,
            _ => true,
        }
    }
}

/// The pixels of the identicon of `name` under valid parameters: the pattern
/// that the digest of the name's bytes gives, under the hash function that
/// the grid size selects.
pub open spec fn identicon_pixels(name: Seq<char>, p: RenderParameters) -> Map<(int, int), Color> {
    let digest = select_digest_spec(p.grid_size)->Ok_0.hash(vstd::utf8::encode_utf8(name));
    pattern(p, pattern_bits(digest), fill_color_spec(digest))
}

/// An identicon, written as an image file.
#[derive(Debug, PartialEq, Eq)]
pub struct Identicon {
    /// The media type that the file is served under.
    pub content_type: String,
    /// The file.
    pub body: Vec<u8>,
}

/// An image file and its media type, as plain sequences.
pub struct IdenticonView {
    pub content_type: Seq<char>,
    pub body: Seq<u8>,
}

impl View for Identicon {
    type V = IdenticonView;

    open spec fn view(&self) -> IdenticonView {
        IdenticonView { content_type: self.content_type@, body: self.body@ }
    }
}

/// An answer with its image file as plain sequences.
pub open spec fn answer_view(answer: Result<Identicon, Rejection>) -> Result<
    IdenticonView,
    Rejection,
> {
    match answer {
        Ok(icon) => Ok(icon@),
        Err(rejection) => Err(rejection),
    }
}

/// The HTTP status of an answer that carries an image.
pub const STATUS_OK: u16 = 200;

/// The HTTP status that an answer is sent with: that of its rejection, or
/// `STATUS_OK` with an image.
pub fn answer_status(answer: &Result<Identicon, Rejection>) -> (code: u16)
    ensures
        code == match *answer {
            Ok(_) => STATUS_OK,
            Err(rejection) => status_of(rejection),
        },
{
    match answer {
        Ok(_) => STATUS_OK,
        Err(rejection) => rejection.status(),
    }
}

/// The media type of an answer: `image/` and the extension as the request
/// spelled it.
pub open spec fn content_type_of(extension: Seq<char>) -> Seq<char> {
    "image/"@ + extension
}

/// The answer to a request for the identicon of `name` under valid
/// parameters.
pub open spec fn identicon_spec(
    name: Seq<char>,
    extension: Seq<char>,
    p: RenderParameters,
) -> Result<IdenticonView, Rejection> {
    let size = p.canvas_size() as nat;
    match encode_spec(size, size, identicon_pixels(name, p), p.format) {
        Ok(body) => Ok(IdenticonView { content_type: content_type_of(extension), body }),
        Err(rejection) => Err(rejection),
    }
}

/// The answer to a request.
pub open spec fn gen_identicon_spec(
    method: Seq<char>,
    file_name: Option<Seq<char>>,
    extension: Option<Seq<char>>,
    query: Option<Seq<char>>,
) -> Result<IdenticonView, Rejection> {
    if method != served_method() {
        Err(Rejection::MethodNotAllowed)
    } else {
        match resolve_spec(file_name, extension, query) {
            Ok(p) => identicon_spec(file_name->0, extension_or_default(extension), p),
            Err(rejection) => Err(rejection),
        }
    }
}

/// Whether a name is short enough to be hashed.
pub open spec fn hashable(name: Seq<char>) -> bool {
    vstd::utf8::encode_utf8(name).len() <= MAX_INPUT_BYTES
}

/// Whether this machine can hash the name of a request, and hold and write
/// the image that it asks for. A request that is turned down asks for none.
pub open spec fn request_in_reach(
    method: Seq<char>,
    file_name: Option<Seq<char>>,
    extension: Option<Seq<char>>,
    query: Option<Seq<char>>,
) -> bool {
    method == served_method() ==> match resolve_spec(file_name, extension, query) {
        Ok(p) => hashable(file_name->0) && p.in_reach(),
        Err(_) => true,
    }
}

/// Paints the identicon of `name` and writes it in the container that the
/// parameters name. `extension` is the extension that the request spelled.
pub fn identicon(name: &str, extension: &str, params: &RenderParameters) -> (r: Result<
    Identicon,
    Rejection,
>)
    requires
        params.valid(),
        params.in_reach(),
        hashable(name@),
    ensures
        answer_view(r) == identicon_spec(name@, extension@, *params),
{
    proof {
        lemma_bit_budget(*params);
    }
    let algorithm = select_digest(params.grid_size).unwrap();
    let digest = algorithm.digest(name.as_bytes());
    let img = render(params, digest);
    match encode(&img, params.format) {
        Ok(body) => {
            let content_type = "image/".to_owned().concat(extension);
            Ok(Identicon { content_type, body })
        },
        Err(rejection) => Err(rejection),
    }
}

/// Whether `method` is the method that is served.
fn is_served(method: &str) -> (r: bool)
    ensures
        r == (method@ == served_method()),
{
    same_chars(chars_of(method).as_slice(), chars_of("GET").as_slice())
}

/// Answers a request: `method` is its method, `file_name` and `extension` the
/// stem and the extension of the last segment of its path, `query` its query
/// string. A request that breaks no rule is answered with the identicon of
/// `file_name`; any other with the first rule that it breaks.
pub fn gen_identicon(
    method: &str,
    file_name: Option<&str>,
    extension: Option<&str>,
    query: Option<&str>,
) -> (r: Result<Identicon, Rejection>)
    requires
        request_in_reach(method@, text_of(file_name), text_of(extension), text_of(query)),
    ensures
        answer_view(r) == gen_identicon_spec(
            method@,
            text_of(file_name),
            text_of(extension),
            text_of(query),
        ),
{
    if !is_served(method) {
        return Err(Rejection::MethodNotAllowed);
    }
    match resolve(file_name, extension, query) {
        Ok(params) => identicon(file_name.unwrap(), spelled_extension(extension), &params),
        Err(rejection) => Err(rejection),
    }
}

/// Answers a request as `gen_identicon` does, where this machine can hold and
/// write the image that it asks for, and gives `None` where it cannot.
pub fn try_gen_identicon(
    method: &str,
    file_name: Option<&str>,
    extension: Option<&str>,
    query: Option<&str>,
) -> (r: Option<Result<Identicon, Rejection>>)
    ensures
        r is Some <==> request_in_reach(
            method@,
            text_of(file_name),
            text_of(extension),
            text_of(query),
        ),
        r matches Some(answer) ==> answer_view(answer) == gen_identicon_spec(
            method@,
            text_of(file_name),
            text_of(extension),
            text_of(query),
        ),
{
    if !is_served(method) {
        return Some(Err(Rejection::MethodNotAllowed));
    }
    match resolve(file_name, extension, query) {
        Ok(params) => {
            let name = file_name.unwrap();
            if name.as_bytes().len() as u64 <= MAX_INPUT_BYTES && params.fits() {
                Some(identicon(name, spelled_extension(extension), &params))
            } else {
                None
            }
        },
        Err(rejection) => Some(Err(rejection)),
    }
}

/// Two answers to one request are the same: both are the same rejection, or
/// both are images with the same media type and the same bytes.
pub proof fn lemma_answers_agree(
    method: Seq<char>,
    file_name: Option<Seq<char>>,
    extension: Option<Seq<char>>,
    query: Option<Seq<char>>,
    first: Result<Identicon, Rejection>,
    second: Result<Identicon, Rejection>,
)
    requires
        answer_view(first) == gen_identicon_spec(method, file_name, extension, query),
        answer_view(second) == gen_identicon_spec(method, file_name, extension, query),
    ensures
        first is Ok <==> second is Ok,
        first is Ok ==> first->Ok_0.body@ == second->Ok_0.body@ && first->Ok_0.content_type@
            == second->Ok_0.content_type@,
        first is Err ==> first->Err_0 == second->Err_0,
{
}

/// A request with a name whose resolution is no multiple of its grid size is
/// turned down, and the rejection recommends the multiple of the grid size
/// nearest to the resolution, held to the range of `u32`.
pub proof fn lemma_indivisible_is_rejected(
    file_name: Seq<char>,
    extension: Option<Seq<char>>,
    query: Option<Seq<char>>,
)
    requires
        file_name.len() > 0,
        requested(query_pairs(query), extension_or_default(extension)).grid_size != 0,
        requested(query_pairs(query), extension_or_default(extension)).resolution as int
            % requested(query_pairs(query), extension_or_default(extension)).grid_size as int != 0,
    ensures
        resolve_spec(Some(file_name), extension, query) == Err::<RenderParameters, Rejection>(
            Rejection::ResolutionNotDivisible {
                recommended: closest_multiple_spec(
                    requested(query_pairs(query), extension_or_default(extension)).resolution,
                    requested(query_pairs(query), extension_or_default(extension)).grid_size,
                ),
            },
        ),
{
}

/// Whatever request is accepted has parameters that are valid: the resolution
/// is a multiple of the grid size, and a cell is at least one pixel wide.
pub proof fn lemma_accepted_is_valid(
    file_name: Option<Seq<char>>,
    extension: Option<Seq<char>>,
    query: Option<Seq<char>>,
)
    ensures
        resolve_spec(file_name, extension, query) matches Ok(p) ==> p.valid() && p.resolution
            as int % p.grid_size as int == 0 && p.cell_size() >= 1 && p.cell_size() * p.grid_size
            == p.resolution,
{
    if let Ok(p) = resolve_spec(file_name, extension, query) {
        crate::params::lemma_valid_iff_not_rejected(p);
        crate::grid::lemma_cells_tile(p);
    }
}

} // verus!
