//! The artifact writer's planning half: the deterministic filenames and
//! contents of the files one run leaves on disk. Text items go verbatim to
//! the fixed text filename; every image item gets its own indexed filename
//! with the extension the classifier picks; a failed reply gets a single
//! record on the fixed error filename and touches no success-path filename.

use vstd::prelude::*;
use vstd::string::StringExecFns;

use crate::mime::classify;
use crate::mime::ext_chars;
use crate::mime::extension_str;
use crate::mime::spec_classify;
use crate::normalize::ContentItem;
use crate::normalize::ItemView;
use crate::normalize::NormalizeError;
use crate::normalize::RawResponse;
use crate::normalize::normalize;
use crate::normalize::success_items;
use crate::normalize::success_skipped;

verus! {

/// The decimal digit character of `d`.
pub open spec fn digit_char(d: int) -> char {
    ((d + 48) as u8) as char
}

/// The decimal digits of `n`, most significant first.
pub open spec fn dec_digits(n: int) -> Seq<char>
    decreases n,
{
    if n < 10 {
        seq![digit_char(n)]
    } else {
        dec_digits(n / 10).push(digit_char(n % 10))
    }
}

/// Relies on String's FromIterator over char: collecting characters yields
/// the string of exactly those characters.
#[verifier::external_body]
fn chars_to_string(chars: &Vec<char>) -> (s: String)
    ensures
        s@ == chars@,
{
    chars.iter().collect()
}

/// Appends the decimal digits of `n` to `out`.
fn push_dec_digits(n: u64, out: &mut Vec<char>)
    ensures
        final(out)@ == old(out)@ + dec_digits(n as int),
    decreases n,
{
    let ghost out0 = out@;
    if n >= 10 {
        push_dec_digits(n / 10, out);
    }
    let d = (n % 10) as u8 + 48;
    out.push(d as char);
    proof {
        assert(d as char == digit_char(n as int % 10));
        assert(out@ =~= out0 + dec_digits(n as int));
    }
}

/// Renders `n` in decimal.
pub fn u64_to_string(n: u64) -> (s: String)
    ensures
        s@ == dec_digits(n as int),
{
    let mut digits: Vec<char> = Vec::new();
    push_dec_digits(n, &mut digits);
    chars_to_string(&digits)
}

/// What one artifact write carries: verbatim text or raw image bytes.
pub enum WriteData {
    Text(String),
    Bytes(Vec<u8>),
}

/// One planned artifact write.
pub struct PlannedWrite {
    pub filename: String,
    pub data: WriteData,
}

/// The fixed filenames of one run: a base name for image artifacts, a text
/// filename, and a distinct error filename.
pub struct NamingContext {
    pub image_base: String,
    pub text_name: String,
    pub error_name: String,
}

/// Mathematical value of `WriteData`.
pub enum DataView {
    Text(Seq<char>),
    Bytes(Seq<u8>),
}

/// Mathematical value of `PlannedWrite`.
pub struct WriteView {
    pub filename: Seq<char>,
    pub data: DataView,
}

/// Mathematical value of `NamingContext`.
pub struct CtxView {
    pub image_base: Seq<char>,
    pub text_name: Seq<char>,
    pub error_name: Seq<char>,
}

impl View for WriteData {
    type V = DataView;

    open spec fn view(&self) -> DataView {
        match self {
            WriteData::Text(t) => DataView::Text(t@),
            WriteData::Bytes(b) => DataView::Bytes(b@),
        }
    }
}

impl DeepView for WriteData {
    type V = DataView;

    open spec fn deep_view(&self) -> DataView {
        self.view()
    }
}

impl View for PlannedWrite {
    type V = WriteView;

    open spec fn view(&self) -> WriteView {
        WriteView { filename: self.filename@, data: self.data@ }
    }
}

impl DeepView for PlannedWrite {
    type V = WriteView;

    open spec fn deep_view(&self) -> WriteView {
        self.view()
    }
}

impl View for NamingContext {
    type V = CtxView;

    open spec fn view(&self) -> CtxView {
        CtxView {
            image_base: self.image_base@,
            text_name: self.text_name@,
            error_name: self.error_name@,
        }
    }
}

/// The filename of the image artifact with 0-based index `idx`: the base
/// name, the index, and the classifier's extension for the MIME type.
pub open spec fn image_filename(ctx: CtxView, idx: int, mime: Seq<char>) -> Seq<char> {
    ctx.image_base + "_"@ + dec_digits(idx) + "."@ + ext_chars(spec_classify(mime))
}

/// The writes planned for `items` with `img_idx` image artifacts already
/// planned before them: one write per item, in item order.
pub open spec fn plan_from(items: Seq<ItemView>, ctx: CtxView, img_idx: int) -> Seq<WriteView>
    decreases items.len(),
{
    if items.len() == 0 {
        Seq::<WriteView>::empty()
    } else {
        match items[0] {
            ItemView::Text(t) => seq![WriteView { filename: ctx.text_name, data: DataView::Text(t) }]
                + plan_from(items.drop_first(), ctx, img_idx),
            ItemView::Image(m, b) => seq![
                WriteView { filename: image_filename(ctx, img_idx, m), data: DataView::Bytes(b) },
            ] + plan_from(items.drop_first(), ctx, img_idx + 1),
        }
    }
}

/// The writes planned for a whole item sequence.
pub open spec fn spec_plan(items: Seq<ItemView>, ctx: CtxView) -> Seq<WriteView> {
    plan_from(items, ctx, 0)
}

/// Builds the indexed image filename for one image item.
fn image_filename_exec(ctx: &NamingContext, idx: u64, mime_type: &str) -> (f: String)
    ensures
        f@ == image_filename(ctx@, idx as int, mime_type@),
{
    let mut f = ctx.image_base.clone();
    f.append("_");
    let digits = u64_to_string(idx);
    f.append(digits.as_str());
    f.append(".");
    f.append(extension_str(classify(mime_type)));
    proof {
        assert(f@ =~= image_filename(ctx@, idx as int, mime_type@));
    }
    f
}

/// Plans the artifact writes of a normalized item sequence: text items to
/// the fixed text filename (a later text overwrites an earlier one), image
/// items each to their own indexed filename, all in item order.
pub fn plan_writes(items: &Vec<ContentItem>, ctx: &NamingContext) -> (w: Vec<PlannedWrite>)
    ensures
        w.deep_view() == spec_plan(items.deep_view(), ctx@),
{
    let ghost iv = items.deep_view();
    let mut w: Vec<PlannedWrite> = Vec::new();
    let mut img: u64 = 0;
    let mut k: usize = 0;
    proof {
        assert(iv.skip(0) =~= iv);
        assert(w.deep_view() =~= Seq::<WriteView>::empty());
        assert(Seq::<WriteView>::empty() + plan_from(iv, ctx@, 0) =~= plan_from(iv, ctx@, 0));
    }
    while k < items.len()
        invariant
            iv == items.deep_view(),
            iv.len() == items@.len(),
            k <= items@.len(),
            img <= k,
            spec_plan(iv, ctx@) == w.deep_view() + plan_from(iv.skip(k as int), ctx@, img as int),
        decreases items@.len() - k,
    {
        let ghost w0 = w.deep_view();
        let ghost img0 = img as int;
        proof {
            assert(iv.skip(k as int).drop_first() =~= iv.skip(k as int + 1));
            assert(iv.skip(k as int)[0] == iv[k as int]);
            assert(iv[k as int] == items@[k as int].deep_view());
        }
        match &items[k] {
            ContentItem::Text { text } => {
                w.push(
                    PlannedWrite {
                        filename: ctx.text_name.clone(),
                        data: WriteData::Text(text.clone()),
                    },
                );
                proof {
                    let head = WriteView { filename: ctx@.text_name, data: DataView::Text(text@) };
                    assert(plan_from(iv.skip(k as int), ctx@, img0) == seq![head] + plan_from(
                        iv.skip(k as int + 1),
                        ctx@,
                        img0,
                    ));
                    assert(w.deep_view() =~= w0 + seq![head]);
                    assert(w0 + (seq![head] + plan_from(iv.skip(k as int + 1), ctx@, img0)) =~= (w0
                        + seq![head]) + plan_from(iv.skip(k as int + 1), ctx@, img0));
                }
            },
            ContentItem::Image { mime_type, bytes } => {
                let f = image_filename_exec(ctx, img, mime_type.as_str());
                w.push(PlannedWrite { filename: f, data: WriteData::Bytes(bytes.clone()) });
                img += 1;
                proof {
                    let head = WriteView {
                        filename: image_filename(ctx@, img0, mime_type@),
                        data: DataView::Bytes(bytes@),
                    };
                    assert(plan_from(iv.skip(k as int), ctx@, img0) == seq![head] + plan_from(
                        iv.skip(k as int + 1),
                        ctx@,
                        img0 + 1,
                    ));
                    assert(w.deep_view() =~= w0 + seq![head]);
                    assert(w0 + (seq![head] + plan_from(iv.skip(k as int + 1), ctx@, img0 + 1))
                        =~= (w0 + seq![head]) + plan_from(iv.skip(k as int + 1), ctx@, img0 + 1));
                }
            },
        }
        k += 1;
    }
    proof {
        assert(iv.skip(items@.len() as int) =~= Seq::<ItemView>::empty());
        assert(w.deep_view() =~= spec_plan(iv, ctx@));
    }
    w
}

/// The payload one item puts on disk: its text verbatim, or its bytes.
pub open spec fn item_data(it: ItemView) -> DataView {
    match it {
        ItemView::Text(t) => DataView::Text(t),
        ItemView::Image(m, b) => DataView::Bytes(b),
    }
}

/// Law: the write plan neither reorders, drops nor duplicates content —
/// it holds one write per item, and the k-th write carries exactly the
/// k-th item's payload.
pub proof fn lemma_plan_preserves_items(items: Seq<ItemView>, ctx: CtxView, img_idx: int)
    ensures
        plan_from(items, ctx, img_idx).len() == items.len(),
        forall|k: int|
            0 <= k < items.len() ==> #[trigger] plan_from(items, ctx, img_idx)[k].data
                == item_data(items[k]),
    decreases items.len(),
{
    if items.len() > 0 {
        match items[0] {
            ItemView::Text(t) => {
                lemma_plan_preserves_items(items.drop_first(), ctx, img_idx);
            },
            ItemView::Image(m, b) => {
                lemma_plan_preserves_items(items.drop_first(), ctx, img_idx + 1);
            },
        }
    }
}

/// The view of an optional headers string.
pub open spec fn opt_chars(headers: Option<String>) -> Option<Seq<char>> {
    match headers {
        Some(h) => Some(h@),
        None => None,
    }
}

/// The error artifact record: the status line, the optional headers line,
/// and the error body.
pub open spec fn spec_error_record(
    status: int,
    headers: Option<Seq<char>>,
    body: Seq<char>,
) -> Seq<char> {
    "Status: "@ + dec_digits(status) + "\n"@ + (match headers {
        Some(h) => "Headers: "@ + h + "\n"@,
        None => Seq::<char>::empty(),
    }) + "Error: "@ + body
}

/// Renders the plain-text record of a failed reply: its status, its headers
/// when they were kept, and its error body.
pub fn error_record(status: u16, headers: &Option<String>, body: &str) -> (s: String)
    ensures
        s@ == spec_error_record(
            status as int,
            match headers {
                Some(h) => Some(h@),
                None => None,
            },
            body@,
        ),
{
    let mut s = String::from_str("Status: ");
    let digits = u64_to_string(status as u64);
    s.append(digits.as_str());
    s.append("\n");
    if let Some(h) = headers {
        s.append("Headers: ");
        s.append(h.as_str());
        s.append("\n");
    }
    s.append("Error: ");
    s.append(body);
    proof {
        assert(s@ =~= spec_error_record(
            status as int,
            match headers {
                Some(h) => Some(h@),
                None => None,
            },
            body@,
        ));
    }
    s
}

/// Plans the error artifact of a failed reply: always the fixed, distinct
/// error filename, never a success-path filename.
pub fn plan_error_write(
    status: u16,
    headers: &Option<String>,
    body: &str,
    ctx: &NamingContext,
) -> (w: PlannedWrite)
    ensures
        w@.filename == ctx@.error_name,
        w@.data == DataView::Text(
            spec_error_record(
                status as int,
                match headers {
                    Some(h) => Some(h@),
                    None => None,
                },
                body@,
            ),
        ),
{
    PlannedWrite {
        filename: ctx.error_name.clone(),
        data: WriteData::Text(error_record(status, headers, body)),
    }
}

/// The full plan of one run: the artifact writes, and the indices of parts
/// whose inline image was dropped for a decode failure.
pub struct Interpretation {
    pub writes: Vec<PlannedWrite>,
    pub skipped_parts: Vec<usize>,
}

/// Interprets one reply end to end. A failure becomes the one error-artifact
/// write; a success body is normalized and its items become artifact writes
/// in item order. Fails exactly when a success body matches neither known
/// shape, and then nothing is written at all.
pub fn interpret_response(response: &RawResponse, ctx: &NamingContext) -> (r: Result<
    Interpretation,
    NormalizeError,
>)
    ensures
        response matches RawResponse::Failure { status, body, headers } ==> r matches Ok(p)
            && p.writes.deep_view() == seq![
            WriteView {
                filename: ctx@.error_name,
                data: DataView::Text(
                    spec_error_record(status as int, opt_chars(*headers), body@),
                ),
            },
        ] && p.skipped_parts@ == Seq::<usize>::empty(),
        response matches RawResponse::Success { body } ==> {
            &&& r is Err <==> body is Unrecognized
            &&& (r matches Ok(p) ==> p.writes.deep_view() == spec_plan(success_items(*body), ctx@)
                && p.skipped_parts@ == success_skipped(*body))
        },
{
    match response {
        RawResponse::Failure { status, body, headers } => {
            let wr = plan_error_write(*status, headers, body.as_str(), ctx);
            let mut writes: Vec<PlannedWrite> = Vec::new();
            writes.push(wr);
            let p = Interpretation { writes, skipped_parts: Vec::new() };
            proof {
                assert(p.writes.deep_view() =~= seq![
                    WriteView {
                        filename: ctx@.error_name,
                        data: DataView::Text(
                            spec_error_record(*status as int, opt_chars(*headers), body@),
                        ),
                    },
                ]);
                assert(p.skipped_parts@ =~= Seq::<usize>::empty());
            }
            Ok(p)
        },
        RawResponse::Success { body } => {
            match normalize(body) {
                Ok(n) => {
                    let writes = plan_writes(&n.items, ctx);
                    Ok(Interpretation { writes, skipped_parts: n.skipped_parts })
                },
                Err(e) => Err(e),
            }
        },
    }
}

} // verus!
