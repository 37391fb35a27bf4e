//! A minimal PDF writer for text reports: one Helvetica text stream per page.

use vstd::prelude::*;
use vstd::utf8::encode_utf8;
use crate::reports::{join, spec_escape_pdf_text, table_views, views, escape_pdf_text};
use crate::text::{
    int_text, push_str, usize_to_padded10, usize_to_string, whitespace_words, zero_padded,
};
use crate::reports::{spec_wrap_line, wrap_line};

verus! {

/// The text operators that show the lines of a page, 14 points apart.
pub open spec fn pdf_stream_lines(lines: Seq<Seq<char>>) -> Seq<char>
    decreases lines.len(),
{
    if lines.len() == 0 {
        Seq::empty()
    } else {
        pdf_stream_lines(lines.drop_last()) + (if lines.len() > 1 {
            "0 -14 Td\n"@
        } else {
            Seq::empty()
        }) + "("@ + spec_escape_pdf_text(lines.last()) + ") Tj\n"@
    }
}

/// The content stream of a page: 10-point Helvetica from (50, 770) down.
pub open spec fn spec_pdf_stream(lines: Seq<Seq<char>>) -> Seq<char> {
    "BT\n/F1 10 Tf\n50 770 Td\n"@ + pdf_stream_lines(lines) + "ET\n"@
}

/// Builds the content stream of a page.
pub fn build_pdf_stream(lines: &Vec<String>) -> (r: String)
    ensures
        r@ == spec_pdf_stream(views(lines@)),
{
    let mut out = String::new();
    push_str(&mut out, "BT\n/F1 10 Tf\n50 770 Td\n");
    let ghost head = out@;
    let mut index: usize = 0;
    while index < lines.len()
        invariant
            index <= lines.len(),
            head == "BT\n/F1 10 Tf\n50 770 Td\n"@,
            out@ == head + pdf_stream_lines(views(lines@).subrange(0, index as int)),
        decreases lines.len() - index,
    {
        let sub = Ghost(views(lines@).subrange(0, (index + 1) as int));
        assert(sub@.drop_last() == views(lines@).subrange(0, index as int));
        assert(sub@.last() == lines@[index as int]@);
        if index > 0 {
            push_str(&mut out, "0 -14 Td\n");
        }
        push_str(&mut out, "(");
        let escaped = escape_pdf_text(lines[index].as_str());
        push_str(&mut out, escaped.as_str());
        push_str(&mut out, ") Tj\n");
        index = index + 1;
    }
    assert(views(lines@).subrange(0, lines.len() as int) == views(lines@));
    push_str(&mut out, "ET\n");
    out
}

/// The number of the font object of a document with `n` pages.
pub open spec fn font_object_id(n: int) -> int {
    3 + 2 * n
}

/// The references to the page objects, separated by spaces.
pub open spec fn kids_text(n: nat) -> Seq<char> {
    join(Seq::new(n, |i: int| int_text(3 + 2 * i) + " 0 R"@), " "@)
}

/// The payload of object `id` of the document for `pages`.
pub open spec fn pdf_payload(pages: Seq<Seq<Seq<char>>>, id: int) -> Seq<char> {
    let n = pages.len() as int;
    if id == 1 {
        "<< /Type /Catalog /Pages 2 0 R >>"@
    } else if id == 2 {
        "<< /Type /Pages /Kids ["@ + kids_text(n as nat) + "] /Count "@ + int_text(n) + " >>"@
    } else if id == font_object_id(n) {
        "<< /Type /Font /Subtype /Type1 /BaseFont /Helvetica >>"@
    } else if (id - 3) % 2 == 0 {
        "<< /Type /Page /Parent 2 0 R /MediaBox [0 0 612 792] /Resources << /Font << /F1 "@
            + int_text(font_object_id(n)) + " 0 R >> >> /Contents "@ + int_text(id + 1)
            + " 0 R >>"@
    } else {
        let stream = spec_pdf_stream(pages[(id - 4) / 2]);
        "<< /Length "@ + int_text(encode_utf8(stream).len() as int) + " >>\nstream\n"@ + stream
            + "endstream"@
    }
}

/// Object `id` with its header and trailer.
pub open spec fn pdf_object(pages: Seq<Seq<Seq<char>>>, id: int) -> Seq<char> {
    int_text(id) + " 0 obj\n"@ + pdf_payload(pages, id) + "\nendobj\n"@
}

/// The file header followed by objects `1..=k`.
pub open spec fn pdf_prefix(pages: Seq<Seq<Seq<char>>>, k: int) -> Seq<char>
    decreases k,
{
    if k <= 0 {
        "%PDF-1.4\n"@
    } else {
        pdf_prefix(pages, k - 1) + pdf_object(pages, k)
    }
}

/// The byte offset at which object `id` starts.
pub open spec fn object_offset(pages: Seq<Seq<Seq<char>>>, id: int) -> int {
    encode_utf8(pdf_prefix(pages, id - 1)).len() as int
}

/// The cross-reference entries of objects `1..=k`.
pub open spec fn xref_entries(pages: Seq<Seq<Seq<char>>>, k: int) -> Seq<char>
    decreases k,
{
    if k <= 0 {
        Seq::empty()
    } else {
        xref_entries(pages, k - 1) + zero_padded(int_text(object_offset(pages, k)), 10)
            + " 00000 n \n"@
    }
}

/// The text of the whole document: header and objects, cross-reference
/// table, trailer.
pub open spec fn spec_pdf_text(pages: Seq<Seq<Seq<char>>>) -> Seq<char> {
    let last = font_object_id(pages.len() as int);
    let body = pdf_prefix(pages, last);
    body + "xref\n0 "@ + int_text(last + 1) + "\n"@ + "0000000000 65535 f \n"@ + xref_entries(
        pages,
        last,
    ) + "trailer\n<< /Size "@ + int_text(last + 1) + " /Root 1 0 R >>\nstartxref\n"@
        + int_text(encode_utf8(body).len() as int) + "\n%%EOF\n"@
}

/// The byte length of a string is the length of its UTF-8 encoding.
fn byte_len(s: &String) -> (r: usize)
    ensures
        r == encode_utf8(s@).len(),
{
    let bytes = s.as_str().as_bytes();
    bytes.len()
}

/// Appends `t` to `s`, keeping track of the UTF-8 length.
proof fn lemma_encode_utf8_concat(a: Seq<char>, b: Seq<char>)
    ensures
        encode_utf8(a + b) == encode_utf8(a) + encode_utf8(b),
    decreases a.len(),
{
    if a.len() > 0 {
        assert((a + b).drop_first() == a.drop_first() + b);
        lemma_encode_utf8_concat(a.drop_first(), b);
    } else {
        assert(a + b == b);
    }
}

/// Appends object `id` to a document whose objects `1..id` are written, and
/// records where it starts.
fn append_object(
    out: &mut String,
    offsets: &mut Vec<usize>,
    id: usize,
    payload: &String,
    Ghost(pages): Ghost<Seq<Seq<Seq<char>>>>,
)
    requires
        id >= 1,
        old(out)@ == pdf_prefix(pages, id - 1),
        old(offsets)@.len() == id - 1,
        forall|k: int| 0 <= k < id - 1 ==> old(offsets)@[k] == object_offset(pages, k + 1),
        payload@ == pdf_payload(pages, id as int),
    ensures
        final(out)@ == pdf_prefix(pages, id as int),
        final(offsets)@.len() == id,
        forall|k: int| 0 <= k < id ==> final(offsets)@[k] == object_offset(pages, k + 1),
{
    let offset = byte_len(out);
    offsets.push(offset);
    let header = usize_to_string(id);
    push_str(out, header.as_str());
    push_str(out, " 0 obj\n");
    push_str(out, payload.as_str());
    push_str(out, "\nendobj\n");
    assert(out@ == pdf_prefix(pages, id - 1) + pdf_object(pages, id as int));
}

/// Appends `int_text(v)` followed by `suffix`.
fn push_number(out: &mut String, v: usize, suffix: &str)
    ensures
        final(out)@ == old(out)@ + int_text(v as int) + suffix@,
{
    let t = usize_to_string(v);
    push_str(out, t.as_str());
    push_str(out, suffix);
}

/// Writes a PDF document with one page per entry of `pages`, each showing its
/// lines; every cross-reference entry gives the byte offset of its object.
pub fn build_pdf(pages: &Vec<Vec<String>>) -> (r: Vec<u8>)
    requires
        pages@.len() <= usize::MAX / 4,
    ensures
        r@ == encode_utf8(spec_pdf_text(table_views(pages@))),
{
    let ghost p = table_views(pages@);
    let page_count = pages.len();
    let font_obj_id = 3 + (page_count * 2);
    let mut out = String::new();
    push_str(&mut out, "%PDF-1.4\n");
    let mut offsets: Vec<usize> = Vec::new();
    assert(out@ == pdf_prefix(p, 0));

    let catalog = String::from_str("<< /Type /Catalog /Pages 2 0 R >>");
    append_object(&mut out, &mut offsets, 1, &catalog, Ghost(p));

    let mut kids = String::new();
    let ghost kid = |i: int| int_text(3 + 2 * i) + " 0 R"@;
    let mut index: usize = 0;
    while index < page_count
        invariant
            index <= page_count,
            page_count == pages@.len() <= usize::MAX / 4,
            kid == (|i: int| int_text(3 + 2 * i) + " 0 R"@),
            kids@ == join(Seq::new(index as nat, kid), " "@),
        decreases page_count - index,
    {
        let ghost before = kids@;
        if index > 0 {
            push_str(&mut kids, " ");
        }
        push_number(&mut kids, 3 + (index * 2), " 0 R");
        proof {
            let s1 = Seq::new((index + 1) as nat, kid);
            assert(s1.drop_last() == Seq::new(index as nat, kid));
            assert(s1.last() == kid(index as int));
            if index == 0 {
                assert(s1.len() == 1);
            }
        }
        index = index + 1;
    }
    let mut pages_dict = String::from_str("<< /Type /Pages /Kids [");
    push_str(&mut pages_dict, kids.as_str());
    push_str(&mut pages_dict, "] /Count ");
    push_number(&mut pages_dict, page_count, " >>");
    append_object(&mut out, &mut offsets, 2, &pages_dict, Ghost(p));

    let mut index: usize = 0;
    while index < page_count
        invariant
            index <= page_count,
            page_count == pages@.len() <= usize::MAX / 4,
            p == table_views(pages@),
            font_obj_id == 3 + 2 * page_count,
            out@ == pdf_prefix(p, 2 + 2 * index),
            offsets@.len() == 2 + 2 * index,
            forall|k: int| 0 <= k < 2 + 2 * index ==> offsets@[k] == object_offset(p, k + 1),
        decreases page_count - index,
    {
        let page_obj_id = 3 + (index * 2);
        let content_obj_id = page_obj_id + 1;
        let mut page = String::from_str(
            "<< /Type /Page /Parent 2 0 R /MediaBox [0 0 612 792] /Resources << /Font << /F1 ",
        );
        push_number(&mut page, font_obj_id, " 0 R >> >> /Contents ");
        push_number(&mut page, content_obj_id, " 0 R >>");
        assert((page_obj_id - 3) % 2 == 0);
        assert(page_obj_id != font_obj_id);
        append_object(&mut out, &mut offsets, page_obj_id, &page, Ghost(p));

        let content_stream = build_pdf_stream(&pages[index]);
        let length = byte_len(&content_stream);
        let mut content = String::from_str("<< /Length ");
        push_number(&mut content, length, " >>\nstream\n");
        push_str(&mut content, content_stream.as_str());
        push_str(&mut content, "endstream");
        assert((content_obj_id - 3) % 2 == 1);
        assert((content_obj_id - 4) / 2 == index);
        assert(p[index as int] == views(pages@[index as int]@));
        assert(content_obj_id != font_obj_id);
        append_object(&mut out, &mut offsets, content_obj_id, &content, Ghost(p));
        index = index + 1;
    }

    let font = String::from_str("<< /Type /Font /Subtype /Type1 /BaseFont /Helvetica >>");
    append_object(&mut out, &mut offsets, font_obj_id, &font, Ghost(p));
    let ghost body = out@;

    let xref_pos = byte_len(&out);
    push_str(&mut out, "xref\n0 ");
    push_number(&mut out, font_obj_id + 1, "\n");
    push_str(&mut out, "0000000000 65535 f \n");
    let ghost xref_head = out@;
    let mut k: usize = 0;
    while k < font_obj_id
        invariant
            k <= font_obj_id,
            offsets@.len() == font_obj_id,
            forall|j: int| 0 <= j < font_obj_id ==> offsets@[j] == object_offset(p, j + 1),
            out@ == xref_head + xref_entries(p, k as int),
        decreases font_obj_id - k,
    {
        let entry = usize_to_padded10(offsets[k]);
        push_str(&mut out, entry.as_str());
        push_str(&mut out, " 00000 n \n");
        k = k + 1;
    }
    push_str(&mut out, "trailer\n<< /Size ");
    push_number(&mut out, font_obj_id + 1, " /Root 1 0 R >>\nstartxref\n");
    push_number(&mut out, xref_pos, "\n%%EOF\n");
    out.as_str().as_bytes_vec()
}

/// A longer prefix of the document extends a shorter one.
proof fn lemma_prefix_extends(pages: Seq<Seq<Seq<char>>>, i: int, j: int) -> (tail: Seq<char>)
    requires
        0 <= i <= j,
    ensures
        pdf_prefix(pages, j) == pdf_prefix(pages, i) + tail,
    decreases j - i,
{
    if i == j {
        assert(pdf_prefix(pages, j) == pdf_prefix(pages, i) + Seq::<char>::empty());
        Seq::empty()
    } else {
        let t = lemma_prefix_extends(pages, i, j - 1);
        assert(pdf_prefix(pages, j) == pdf_prefix(pages, i) + (t + pdf_object(pages, j)));
        t + pdf_object(pages, j)
    }
}

/// The document begins with the `%PDF-1.4` header line, ends with the
/// `%%EOF` line, and the `startxref` value is the byte offset at which the
/// cross-reference table (`xref`) begins.
#[verifier::spinoff_prover]
#[verifier::rlimit(40)]
pub proof fn lemma_pdf_frame(pages: Seq<Seq<Seq<char>>>)
    ensures
        ({
            let text = spec_pdf_text(pages);
            let body = pdf_prefix(pages, font_object_id(pages.len() as int));
            let bytes = encode_utf8(text);
            let offset = encode_utf8(body).len() as int;
            &&& text.take(9) == "%PDF-1.4\n"@
            &&& text.skip(text.len() - 7) == "\n%%EOF\n"@
            &&& offset + encode_utf8("xref\n"@).len() <= bytes.len()
            &&& bytes.subrange(offset, offset + encode_utf8("xref\n"@).len() as int)
                == encode_utf8("xref\n"@)
        }),
{
    let last = font_object_id(pages.len() as int);
    let text = spec_pdf_text(pages);
    let head = "%PDF-1.4\n"@;
    let tail = lemma_prefix_extends(pages, 0, last);
    let body = pdf_prefix(pages, last);
    assert(pdf_prefix(pages, 0) == head);
    reveal_strlit("%PDF-1.4\n");
    reveal_strlit("\n%%EOF\n");
    reveal_strlit("xref\n");
    let rest = text.subrange(body.len() as int, text.len() as int);
    assert(text == body + rest);
    assert(body == head + tail);
    assert(text.take(9) =~= head);
    let before_eof = "xref\n0 "@ + int_text(last + 1) + "\n"@ + "0000000000 65535 f \n"@
        + xref_entries(pages, last) + "trailer\n<< /Size "@ + int_text(last + 1)
        + " /Root 1 0 R >>\nstartxref\n"@ + int_text(encode_utf8(body).len() as int);
    assert(text == body + before_eof + "\n%%EOF\n"@);
    assert(text.skip(text.len() - 7) =~= "\n%%EOF\n"@);
    let x = "xref\n"@;
    let after = rest.subrange(5, rest.len() as int);
    reveal_strlit("xref\n0 ");
    assert(rest == x + after);
    lemma_encode_utf8_concat(body, x + after);
    lemma_encode_utf8_concat(x, after);
    let eb = encode_utf8(body);
    let ex = encode_utf8(x);
    assert(encode_utf8(text) == eb + (ex + encode_utf8(after)));
    assert(encode_utf8(text).subrange(eb.len() as int, (eb.len() + ex.len()) as int) == ex);
}

/// Every cross-reference entry of the document points at the header
/// `"<id> 0 obj"` of its object in the document's bytes.
#[verifier::spinoff_prover]
#[verifier::rlimit(40)]
pub proof fn lemma_xref_offsets_point_at_objects(pages: Seq<Seq<Seq<char>>>, id: int)
    requires
        1 <= id <= font_object_id(pages.len() as int),
    ensures
        ({
            let bytes = encode_utf8(spec_pdf_text(pages));
            let offset = object_offset(pages, id);
            let header = encode_utf8(int_text(id) + " 0 obj\n"@);
            &&& offset + header.len() <= bytes.len()
            &&& bytes.subrange(offset, offset + header.len()) == header
        }),
{
    let last = font_object_id(pages.len() as int);
    let text = spec_pdf_text(pages);
    let before = pdf_prefix(pages, id - 1);
    let header = int_text(id) + " 0 obj\n"@;
    let tail = lemma_prefix_extends(pages, id, last);
    let body = pdf_prefix(pages, last);
    let rest = text.subrange(body.len() as int, text.len() as int);
    assert(text == body + rest);
    let after = pdf_payload(pages, id) + "\nendobj\n"@ + tail + rest;
    assert(pdf_object(pages, id) == header + (pdf_payload(pages, id) + "\nendobj\n"@));
    assert(text == before + (header + after));
    lemma_encode_utf8_concat(before, header + after);
    lemma_encode_utf8_concat(header, after);
    let bytes = encode_utf8(text);
    let eb = encode_utf8(before);
    let eh = encode_utf8(header);
    assert(bytes == eb + (eh + encode_utf8(after)));
    assert(bytes.subrange(eb.len() as int, (eb.len() + eh.len()) as int) == eh);
}

/// The objects stand in the document one after another in the order of their
/// numbers, each once: object `id` is found whole at its cross-reference
/// offset, and the next object starts where it ends (after the last object,
/// the cross-reference table does).
#[verifier::spinoff_prover]
#[verifier::rlimit(40)]
pub proof fn lemma_objects_in_order(pages: Seq<Seq<Seq<char>>>, id: int)
    requires
        1 <= id <= font_object_id(pages.len() as int),
    ensures
        ({
            let bytes = encode_utf8(spec_pdf_text(pages));
            let offset = object_offset(pages, id);
            let object = encode_utf8(pdf_object(pages, id));
            &&& offset + object.len() <= bytes.len()
            &&& bytes.subrange(offset, offset + object.len()) == object
            &&& object_offset(pages, id + 1) == offset + object.len()
        }),
{
    let last = font_object_id(pages.len() as int);
    let text = spec_pdf_text(pages);
    let before = pdf_prefix(pages, id - 1);
    let object = pdf_object(pages, id);
    let tail = lemma_prefix_extends(pages, id, last);
    let body = pdf_prefix(pages, last);
    let rest = text.subrange(body.len() as int, text.len() as int);
    assert(text == body + rest);
    let after = tail + rest;
    assert(pdf_prefix(pages, id) == before + object);
    assert(text == before + (object + after));
    lemma_encode_utf8_concat(before, object + after);
    lemma_encode_utf8_concat(object, after);
    lemma_encode_utf8_concat(before, object);
    let bytes = encode_utf8(text);
    let eb = encode_utf8(before);
    let eo = encode_utf8(object);
    assert(bytes == eb + (eo + encode_utf8(after)));
    assert(bytes.subrange(eb.len() as int, (eb.len() + eo.len()) as int) == eo);
}

/// The page tree: object 2 lists the pages as kids `3 0 R`, `5 0 R`, ... with
/// their count; page `i` is object `3 + 2i`, whose contents are object
/// `4 + 2i`, the content stream of the page's lines with its byte length.
pub proof fn lemma_page_objects(pages: Seq<Seq<Seq<char>>>, i: int)
    requires
        0 <= i < pages.len(),
    ensures
        pdf_payload(pages, 2) == "<< /Type /Pages /Kids ["@ + kids_text(pages.len())
            + "] /Count "@ + int_text(pages.len() as int) + " >>"@,
        kids_text(pages.len()) == join(
            Seq::new(pages.len(), |k: int| int_text(3 + 2 * k) + " 0 R"@),
            " "@,
        ),
        pdf_payload(pages, 3 + 2 * i) == "<< /Type /Page /Parent 2 0 R /MediaBox [0 0 612 792] /Resources << /Font << /F1 "@
            + int_text(font_object_id(pages.len() as int)) + " 0 R >> >> /Contents "@
            + int_text(4 + 2 * i) + " 0 R >>"@,
        pdf_payload(pages, 4 + 2 * i) == "<< /Length "@ + int_text(
            encode_utf8(spec_pdf_stream(pages[i])).len() as int,
        ) + " >>\nstream\n"@ + spec_pdf_stream(pages[i]) + "endstream"@,
{
    assert((3 + 2 * i - 3) % 2 == 0);
    assert((4 + 2 * i - 3) % 2 == 1);
    assert((4 + 2 * i - 4) / 2 == i);
}

/// The views of a vector after a push.
proof fn lemma_views_push(v: Seq<String>, x: String)
    ensures
        views(v.push(x)) == views(v).push(x@),
{
    assert(views(v.push(x)) =~= views(v).push(x@));
}

/// The views of a table after a push.
proof fn lemma_table_views_push(v: Seq<Vec<String>>, x: Vec<String>)
    ensures
        table_views(v.push(x)) == table_views(v).push(views(x@)),
{
    assert(table_views(v.push(x)) =~= table_views(v).push(views(x@)));
}

/// `parts` joined with `sep`.
pub fn join_strings(parts: &Vec<String>, sep: &str) -> (r: String)
    ensures
        r@ == join(views(parts@), sep@),
{
    let mut out = String::new();
    let mut i: usize = 0;
    while i < parts.len()
        invariant
            i <= parts.len(),
            out@ == join(views(parts@).subrange(0, i as int), sep@),
        decreases parts.len() - i,
    {
        if i > 0 {
            push_str(&mut out, sep);
        }
        push_str(&mut out, parts[i].as_str());
        proof {
            let s1 = views(parts@).subrange(0, (i + 1) as int);
            assert(s1.drop_last() == views(parts@).subrange(0, i as int));
            assert(s1.last() == parts@[i as int]@);
            if i == 0 {
                assert(s1.len() == 1);
            }
        }
        i = i + 1;
    }
    assert(views(parts@).subrange(0, parts.len() as int) == views(parts@));
    out
}

/// `n` dashes.
pub open spec fn dashes(n: nat) -> Seq<char> {
    Seq::new(n, |i: int| '-')
}

/// The lines of a report before wrapping: title, generation time, a blank
/// line, then the header and a rule followed by one line per row (or a note
/// when there are no columns or no rows); cells are separated by ` | `.
pub open spec fn report_lines(
    report_type: Seq<char>,
    generated_at: Seq<char>,
    headers: Seq<Seq<char>>,
    rows: Seq<Seq<Seq<char>>>,
) -> Seq<Seq<char>> {
    let top = seq!["Payroll Report: "@ + report_type, "Generated At: "@ + generated_at, Seq::empty()];
    if headers.len() == 0 {
        top.push("No columns available."@)
    } else {
        let ruled = top.push(join(headers, " | "@)).push(dashes(120));
        if rows.len() == 0 {
            ruled.push("(No rows returned for this report)"@)
        } else {
            ruled + rows.map_values(|r: Seq<Seq<char>>| join(r, " | "@))
        }
    }
}

/// Every line wrapped to 110 characters, in order.
pub open spec fn wrapped_report_lines(lines: Seq<Seq<char>>) -> Seq<Seq<char>> {
    lines.map_values(|l: Seq<char>| spec_wrap_line(l, whitespace_words(l), 110)).flatten()
}

/// Consecutive groups of `per_page` lines; the last group may be shorter.
pub open spec fn paginate(lines: Seq<Seq<char>>, per_page: nat) -> Seq<Seq<Seq<char>>>
    decreases lines.len(),
{
    if lines.len() == 0 || per_page == 0 {
        Seq::empty()
    } else if lines.len() <= per_page {
        seq![lines]
    } else {
        seq![lines.take(per_page as int)] + paginate(lines.skip(per_page as int), per_page)
    }
}

/// The pages of a report: its wrapped lines, 48 to a page.
pub open spec fn report_pages(lines: Seq<Seq<char>>) -> Seq<Seq<Seq<char>>> {
    let pages = paginate(wrapped_report_lines(lines), 48);
    if pages.len() == 0 {
        seq![seq!["Payroll report is empty."@]]
    } else {
        pages
    }
}

/// The lines of a report with columns: the title, the time it was generated,
/// a blank line, the header line and a rule, then every row joined with
/// ` | `, one line each and in order (or a note when there are no rows).
pub proof fn lemma_report_lines_show_rows(
    report_type: Seq<char>,
    generated_at: Seq<char>,
    headers: Seq<Seq<char>>,
    rows: Seq<Seq<Seq<char>>>,
)
    requires
        headers.len() > 0,
    ensures
        ({
            let lines = report_lines(report_type, generated_at, headers, rows);
            &&& lines[0] == "Payroll Report: "@ + report_type
            &&& lines[1] == "Generated At: "@ + generated_at
            &&& lines[2] == Seq::<char>::empty()
            &&& lines[3] == join(headers, " | "@)
            &&& lines[4] == dashes(120)
            &&& rows.len() > 0 ==> lines.len() == 5 + rows.len()
            &&& forall|j: int| 0 <= j < rows.len() ==> #[trigger] lines[5 + j] == join(rows[j], " | "@)
            &&& rows.len() == 0 ==> lines.len() == 6 && lines[5]
                == "(No rows returned for this report)"@
        }),
{
    let lines = report_lines(report_type, generated_at, headers, rows);
    if rows.len() > 0 {
        let ruled = seq!["Payroll Report: "@ + report_type, "Generated At: "@ + generated_at, Seq::empty()].push(
            join(headers, " | "@),
        ).push(dashes(120));
        let shown = rows.map_values(|r: Seq<Seq<char>>| join(r, " | "@));
        assert(lines == ruled + shown);
        assert forall|j: int| 0 <= j < rows.len() implies #[trigger] lines[5 + j] == join(
            rows[j],
            " | "@,
        ) by {
            assert(lines[5 + j] == shown[j]);
        }
    }
}

/// Pagination keeps every line, in order: the pages put back together are the
/// lines, and each page holds from one to `per_page` lines.
pub proof fn lemma_paginate_keeps_lines(lines: Seq<Seq<char>>, per_page: nat)
    requires
        per_page > 0,
    ensures
        paginate(lines, per_page).flatten() == lines,
        forall|p: int|
            0 <= p < paginate(lines, per_page).len() ==> 0 < (#[trigger] paginate(
                lines,
                per_page,
            )[p]).len() <= per_page,
    decreases lines.len(),
{
    let pages = paginate(lines, per_page);
    if lines.len() == 0 {
    } else if lines.len() <= per_page {
        assert(pages.drop_first() =~= Seq::<Seq<Seq<char>>>::empty());
        assert(pages.flatten() == pages.first() + pages.drop_first().flatten());
        assert(pages.flatten() =~= lines);
    } else {
        let first = lines.take(per_page as int);
        let rest = lines.skip(per_page as int);
        lemma_paginate_keeps_lines(rest, per_page);
        assert(pages.first() == first);
        assert(pages.drop_first() =~= paginate(rest, per_page));
        assert(pages.flatten() == first + paginate(rest, per_page).flatten());
        assert(first + rest =~= lines);
        assert forall|p: int| 0 <= p < pages.len() implies 0 < (#[trigger] pages[p]).len()
            <= per_page by {
            if p > 0 {
                assert(pages[p] == paginate(rest, per_page)[p - 1]);
            }
        }
    }
}

/// Lines of at most 110 characters are not wrapped: the wrapped lines are the
/// lines themselves.
pub proof fn lemma_short_lines_unwrapped(lines: Seq<Seq<char>>)
    requires
        forall|i: int| 0 <= i < lines.len() ==> (#[trigger] lines[i]).len() <= 110,
    ensures
        wrapped_report_lines(lines) == lines,
    decreases lines.len(),
{
    broadcast use Seq::lemma_flatten_push;

    if lines.len() > 0 {
        let init = lines.drop_last();
        let f = |l: Seq<char>| spec_wrap_line(l, whitespace_words(l), 110);
        assert forall|i: int| 0 <= i < init.len() implies (#[trigger] init[i]).len() <= 110 by {
            assert(init[i] == lines[i]);
        }
        lemma_short_lines_unwrapped(init);
        assert(lines.last() == lines[lines.len() - 1]);
        assert(lines.map_values(f) =~= init.map_values(f).push(f(lines.last())));
        assert(f(lines.last()) == seq![lines.last()]);
        assert(init.map_values(f).flatten() + seq![lines.last()] =~= init.push(lines.last()));
        assert(init.push(lines.last()) =~= lines);
    } else {
        assert(lines.map_values(|l: Seq<char>| spec_wrap_line(l, whitespace_words(l), 110))
            =~= Seq::<Seq<Seq<char>>>::empty());
    }
}

/// The pages of a report put back together are its lines wrapped to 110
/// characters (unless there is nothing at all to show), at most 48 to a page.
pub proof fn lemma_report_pages_keep_lines(lines: Seq<Seq<char>>)
    ensures
        wrapped_report_lines(lines).len() > 0 ==> report_pages(lines).flatten()
            == wrapped_report_lines(lines),
        forall|p: int|
            0 <= p < report_pages(lines).len() ==> (#[trigger] report_pages(lines)[p]).len() <= 48,
{
    lemma_paginate_keeps_lines(wrapped_report_lines(lines), 48);
    let pages = paginate(wrapped_report_lines(lines), 48);
    if wrapped_report_lines(lines).len() > 0 {
        assert(pages.len() > 0);
    } else {
        assert(pages.len() == 0);
        reveal_strlit("Payroll report is empty.");
    }
}

/// Groups lines into pages of at most `per_page` lines.
fn paginate_lines(lines: &Vec<String>, per_page: usize) -> (r: Vec<Vec<String>>)
    requires
        per_page > 0,
    ensures
        table_views(r@) == paginate(views(lines@), per_page as nat),
        r@.len() * per_page <= lines@.len() + per_page,
{
    let ghost all = views(lines@);
    let mut pages: Vec<Vec<String>> = Vec::new();
    let mut pos: usize = 0;
    assert(all.skip(0) == all);
    assert(table_views(pages@) + paginate(all, per_page as nat) == paginate(all, per_page as nat));
    while pos < lines.len()
        invariant
            pos <= lines.len(),
            all == views(lines@),
            per_page > 0,
            table_views(pages@) + paginate(all.skip(pos as int), per_page as nat) == paginate(
                all,
                per_page as nat,
            ),
            pages@.len() * per_page <= pos || pos == lines@.len(),
            pages@.len() * per_page <= lines@.len() + per_page,
        decreases lines.len() - pos,
    {
        let end = if lines.len() - pos <= per_page {
            lines.len()
        } else {
            pos + per_page
        };
        let mut chunk: Vec<String> = Vec::new();
        let mut j: usize = pos;
        while j < end
            invariant
                pos <= j <= end <= lines.len(),
                all == views(lines@),
                views(chunk@) == all.subrange(pos as int, j as int),
            decreases end - j,
        {
            let ghost old_chunk = chunk@;
            chunk.push(lines[j].clone());
            proof {
                lemma_views_push(old_chunk, lines@[j as int]);
            }
            assert(views(chunk@) == all.subrange(pos as int, (j + 1) as int));
            j = j + 1;
        }
        proof {
            let rest = all.skip(pos as int);
            assert(rest.len() > 0);
            if rest.len() <= per_page {
                assert(views(chunk@) == rest);
                assert(all.skip(end as int).len() == 0);
                assert(paginate(all.skip(end as int), per_page as nat) == Seq::<Seq<Seq<char>>>::empty());
            } else {
                assert(views(chunk@) == rest.take(per_page as int));
                assert(rest.skip(per_page as int) == all.skip(end as int));
            }
            lemma_table_views_push(pages@, chunk);
        }
        let ghost old_len = pages@.len();
        pages.push(chunk);
        proof {
            assert(old_len * per_page <= pos);
            assert(pages@.len() * per_page == old_len * per_page + per_page) by (nonlinear_arith)
                requires
                    pages@.len() == old_len + 1,
            ;
        }
        pos = end;
    }
    assert(all.skip(lines.len() as int).len() == 0);
    pages
}

/// Renders a report as a PDF document: title and generation time, the
/// header and rows separated by ` | `, wrapped to 110 characters, 48 lines
/// to a page.
pub fn to_pdf(
    report_type: &str,
    generated_at: &str,
    headers: &Vec<String>,
    rows: &Vec<Vec<String>>,
) -> (r: Vec<u8>)
    ensures
        r@ == encode_utf8(
            spec_pdf_text(
                report_pages(
                    report_lines(report_type@, generated_at@, views(headers@), table_views(rows@)),
                ),
            ),
        ),
{
    let ghost spec_lines = report_lines(
        report_type@,
        generated_at@,
        views(headers@),
        table_views(rows@),
    );
    let mut lines: Vec<String> = Vec::new();
    let mut title = String::from_str("Payroll Report: ");
    push_str(&mut title, report_type);
    lines.push(title);
    let mut generated = String::from_str("Generated At: ");
    push_str(&mut generated, generated_at);
    lines.push(generated);
    lines.push(String::new());
    if headers.len() == 0 {
        lines.push(String::from_str("No columns available."));
    } else {
        lines.push(join_strings(headers, " | "));
        let mut rule = String::new();
        let mut d: usize = 0;
        while d < 120
            invariant
                d <= 120,
                rule@ == dashes(d as nat),
            decreases 120 - d,
        {
            crate::text::push_char(&mut rule, '-');
            assert(dashes((d + 1) as nat) == dashes(d as nat).push('-'));
            d = d + 1;
        }
        lines.push(rule);
        if rows.len() == 0 {
            lines.push(String::from_str("(No rows returned for this report)"));
        } else {
            let ghost head = views(lines@);
            let mut i: usize = 0;
            while i < rows.len()
                invariant
                    i <= rows.len(),
                    views(lines@) == head + table_views(rows@).subrange(0, i as int).map_values(
                        |r: Seq<Seq<char>>| join(r, " | "@),
                    ),
                decreases rows.len() - i,
            {
                let joined = join_strings(&rows[i], " | ");
                let ghost old_lines = lines@;
                lines.push(joined);
                proof {
                    lemma_views_push(old_lines, joined);
                    let f = |r: Seq<Seq<char>>| join(r, " | "@);
                    assert(table_views(rows@).subrange(0, (i + 1) as int).map_values(f)
                        == table_views(rows@).subrange(0, i as int).map_values(f).push(
                        f(views(rows@[i as int]@)),
                    ));
                }
                i = i + 1;
            }
            assert(table_views(rows@).subrange(0, rows.len() as int) == table_views(rows@));
        }
    }
    assert(views(lines@) == spec_lines);

    let ghost wrap = |l: Seq<char>| spec_wrap_line(l, whitespace_words(l), 110);
    let mut wrapped: Vec<String> = Vec::new();
    let mut i: usize = 0;
    while i < lines.len()
        invariant
            i <= lines.len(),
            wrap == (|l: Seq<char>| spec_wrap_line(l, whitespace_words(l), 110)),
            views(wrapped@) == views(lines@).subrange(0, i as int).map_values(wrap).flatten(),
        decreases lines.len() - i,
    {
        let pieces = wrap_line(lines[i].as_str(), 110);
        let ghost before = views(wrapped@);
        let mut j: usize = 0;
        while j < pieces.len()
            invariant
                j <= pieces.len(),
                views(wrapped@) == before + views(pieces@).subrange(0, j as int),
            decreases pieces.len() - j,
        {
            let ghost old_wrapped = wrapped@;
            wrapped.push(pieces[j].clone());
            proof {
                lemma_views_push(old_wrapped, pieces@[j as int]);
            }
            assert(views(pieces@).subrange(0, (j + 1) as int) == views(pieces@).subrange(
                0,
                j as int,
            ).push(pieces@[j as int]@));
            j = j + 1;
        }
        proof {
            assert(views(pieces@).subrange(0, pieces.len() as int) == views(pieces@));
            let m = views(lines@).subrange(0, i as int).map_values(wrap);
            assert(views(lines@).subrange(0, (i + 1) as int).map_values(wrap) == m.push(
                wrap(lines@[i as int]@),
            ));
            m.lemma_flatten_push(wrap(lines@[i as int]@));
        }
        i = i + 1;
    }
    assert(views(lines@).subrange(0, lines.len() as int) == views(lines@));
    let total_lines = wrapped.len();
    let mut pages = paginate_lines(&wrapped, 48);
    if pages.len() == 0 {
        let mut only: Vec<String> = Vec::new();
        let note = String::from_str("Payroll report is empty.");
        only.push(note);
        proof {
            lemma_views_push(Seq::empty(), note);
            assert(Seq::<String>::empty().push(note) == only@);
            lemma_table_views_push(pages@, only);
            assert(pages@.push(only) =~= seq![only]);
        }
        pages.push(only);
        assert(table_views(pages@) == seq![seq!["Payroll report is empty."@]]);
    }
    proof {
        assert(pages@.len() <= usize::MAX / 4) by (nonlinear_arith)
            requires
                pages@.len() * 48 <= total_lines + 48 || pages@.len() == 1,
                total_lines <= usize::MAX,
        ;
    }
    build_pdf(&pages)
}

} // verus!
