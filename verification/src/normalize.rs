//! The response normalizer: turns a success body of either recognized shape
//! into a sequence of typed content items, in encounter order.
//!
//! Shape A (candidate/parts): every part of the first candidate contributes
//! its decoded inline image and its text, each when present. A part whose
//! inline payload fails decoding loses only its image: the part's index goes
//! to a diagnostic list and its siblings are kept.
//!
//! Shape B (choice/content): the first choice's content string is inspected.
//! Image-bearing content — opening with the markdown image marker over a
//! data URI, or with a bare `data:image/` URI — is split at its first comma,
//! trimmed at the first closing parenthesis when it is markdown, and decoded;
//! on success the one item is an image whose MIME type is sniffed from the
//! whole content, on failure (or with no comma) the one item is the content
//! itself as text.

use vstd::prelude::*;
use vstd::string::StringExecFns;

use crate::codec::b64_decodable;
use crate::codec::b64_decoded;
use crate::codec::decode_base64;
use crate::text::contains_str;
use crate::text::find_char;
use crate::text::lit_at_exec;
use crate::text::scan_find_char;
use crate::text::spec_contains;
use crate::text::spec_starts_with;

verus! {

/// Inline image data of a Shape-A part: a MIME type and a base64 payload.
pub struct InlineData {
    pub mime_type: String,
    pub data: String,
}

/// One part of a Shape-A candidate: optional direct text and optional
/// inline image data, independently present.
pub struct ResponsePart {
    pub text: Option<String>,
    pub inline_data: Option<InlineData>,
}

/// One candidate of a Shape-A success body.
pub struct Candidate {
    pub parts: Vec<ResponsePart>,
}

/// One choice of a Shape-B success body: a single opaque content string.
pub struct Choice {
    pub content: String,
}

/// Token-usage counters reported beside a Shape-B body.
pub struct Usage {
    pub prompt_tokens: u32,
    pub completion_tokens: u32,
    pub total_tokens: u32,
}

/// A success body: one of the two recognized shapes, or neither.
pub enum SuccessBody {
    ShapeA { candidates: Vec<Candidate> },
    ShapeB { choices: Vec<Choice>, usage: Usage },
    Unrecognized,
}

/// The envelope of one reply: a success body, or an HTTP failure with its
/// status, error body, and optionally the response headers rendered as text.
pub enum RawResponse {
    Success { body: SuccessBody },
    Failure { status: u16, body: String, headers: Option<String> },
}

/// One unit of normalized output: verbatim text, or an image with its MIME
/// type and decoded bytes.
pub enum ContentItem {
    Text { text: String },
    Image { mime_type: String, bytes: Vec<u8> },
}

/// Mathematical value of `InlineData`.
pub struct InlineDataView {
    pub mime_type: Seq<char>,
    pub data: Seq<char>,
}

/// Mathematical value of `ResponsePart`.
pub struct PartView {
    pub text: Option<Seq<char>>,
    pub inline_data: Option<InlineDataView>,
}

/// Mathematical value of `ContentItem`.
pub enum ItemView {
    Text(Seq<char>),
    Image(Seq<char>, Seq<u8>),
}

impl View for InlineData {
    type V = InlineDataView;

    open spec fn view(&self) -> InlineDataView {
        InlineDataView { mime_type: self.mime_type@, data: self.data@ }
    }
}

impl DeepView for InlineData {
    type V = InlineDataView;

    open spec fn deep_view(&self) -> InlineDataView {
        self.view()
    }
}

impl View for ResponsePart {
    type V = PartView;

    open spec fn view(&self) -> PartView {
        PartView {
            text: match self.text {
                Some(t) => Some(t@),
                None => None,
            },
            inline_data: match self.inline_data {
                Some(d) => Some(d@),
                None => None,
            },
        }
    }
}

impl DeepView for ResponsePart {
    type V = PartView;

    open spec fn deep_view(&self) -> PartView {
        self.view()
    }
}

impl View for Candidate {
    type V = Seq<PartView>;

    open spec fn view(&self) -> Seq<PartView> {
        self.parts.deep_view()
    }
}

impl DeepView for Candidate {
    type V = Seq<PartView>;

    open spec fn deep_view(&self) -> Seq<PartView> {
        self.view()
    }
}

impl View for Choice {
    type V = Seq<char>;

    open spec fn view(&self) -> Seq<char> {
        self.content@
    }
}

impl DeepView for Choice {
    type V = Seq<char>;

    open spec fn deep_view(&self) -> Seq<char> {
        self.view()
    }
}

impl View for ContentItem {
    type V = ItemView;

    open spec fn view(&self) -> ItemView {
        match self {
            ContentItem::Text { text } => ItemView::Text(text@),
            ContentItem::Image { mime_type, bytes } => ItemView::Image(mime_type@, bytes@),
        }
    }
}

impl DeepView for ContentItem {
    type V = ItemView;

    open spec fn deep_view(&self) -> ItemView {
        self.view()
    }
}

/// The items one part contributes: its decoded inline image when the payload
/// decodes, then its text when present.
pub open spec fn part_items(p: PartView) -> Seq<ItemView> {
    (match p.inline_data {
        Some(d) => if b64_decodable(d.data) {
            seq![ItemView::Image(d.mime_type, b64_decoded(d.data))]
        } else {
            Seq::<ItemView>::empty()
        },
        None => Seq::<ItemView>::empty(),
    }) + (match p.text {
        Some(t) => seq![ItemView::Text(t)],
        None => Seq::<ItemView>::empty(),
    })
}

/// The items of a part list, in encounter order.
pub open spec fn parts_items(parts: Seq<PartView>) -> Seq<ItemView>
    decreases parts.len(),
{
    if parts.len() == 0 {
        Seq::<ItemView>::empty()
    } else {
        parts_items(parts.drop_last()) + part_items(parts.last())
    }
}

/// The indices of parts whose inline payload fails decoding, in order.
pub open spec fn parts_skipped(parts: Seq<PartView>) -> Seq<usize>
    decreases parts.len(),
{
    if parts.len() == 0 {
        Seq::<usize>::empty()
    } else {
        parts_skipped(parts.drop_last()) + (match parts.last().inline_data {
            Some(d) => if !b64_decodable(d.data) {
                seq![(parts.len() - 1) as usize]
            } else {
                Seq::<usize>::empty()
            },
            None => Seq::<usize>::empty(),
        })
    }
}

/// Shape A normalizes the first candidate's parts; no candidate, no items.
pub open spec fn shape_a_items(cands: Seq<Seq<PartView>>) -> Seq<ItemView> {
    if cands.len() == 0 {
        Seq::<ItemView>::empty()
    } else {
        parts_items(cands[0])
    }
}

/// The diagnostic indices of a Shape-A body.
pub open spec fn shape_a_skipped(cands: Seq<Seq<PartView>>) -> Seq<usize> {
    if cands.len() == 0 {
        Seq::<usize>::empty()
    } else {
        parts_skipped(cands[0])
    }
}

/// Shape-B content is image-bearing when it opens with the markdown image
/// marker over a data URI, or with a bare `data:image/` URI.
pub open spec fn is_image_bearing(c: Seq<char>) -> bool {
    spec_starts_with(c, "![image](data:image/"@) || spec_starts_with(c, "data:image/"@)
}

/// The payload Shape B takes from image-bearing content: everything after
/// the first comma and, for markdown content, only up to the first closing
/// parenthesis after that comma.
pub open spec fn shape_b_payload(c: Seq<char>) -> Seq<char> {
    let rest = c.subrange(find_char(c, 0, ',') + 1, c.len() as int);
    if spec_starts_with(c, "![image]("@) {
        rest.subrange(0, find_char(rest, 0, ')'))
    } else {
        rest
    }
}

/// The canonical MIME type sniffed from a whole content string, by the
/// classifier's token set and priority.
pub open spec fn spec_sniff_mime(c: Seq<char>) -> Seq<char> {
    if spec_contains(c, "png"@) {
        "image/png"@
    } else if spec_contains(c, "jpeg"@) || spec_contains(c, "jpg"@) {
        "image/jpeg"@
    } else if spec_contains(c, "gif"@) {
        "image/gif"@
    } else if spec_contains(c, "webp"@) {
        "image/webp"@
    } else {
        "image/png"@
    }
}

/// The items of one Shape-B content string: its decoded image when it is
/// image-bearing with a comma and a decodable payload, else the content
/// itself, verbatim, as text.
pub open spec fn shape_b_items(c: Seq<char>) -> Seq<ItemView> {
    if !is_image_bearing(c) {
        seq![ItemView::Text(c)]
    } else if find_char(c, 0, ',') == c.len() {
        seq![ItemView::Text(c)]
    } else if b64_decodable(shape_b_payload(c)) {
        seq![ItemView::Image(spec_sniff_mime(c), b64_decoded(shape_b_payload(c)))]
    } else {
        seq![ItemView::Text(c)]
    }
}

/// Shape B normalizes the first choice's content; no choice, no items.
pub open spec fn shape_b_choice_items(choices: Seq<Seq<char>>) -> Seq<ItemView> {
    if choices.len() == 0 {
        Seq::<ItemView>::empty()
    } else {
        shape_b_items(choices[0])
    }
}

/// The items a success body normalizes to.
pub open spec fn success_items(body: SuccessBody) -> Seq<ItemView> {
    match body {
        SuccessBody::ShapeA { candidates } => shape_a_items(candidates.deep_view()),
        SuccessBody::ShapeB { choices, .. } => shape_b_choice_items(choices.deep_view()),
        SuccessBody::Unrecognized => Seq::<ItemView>::empty(),
    }
}

/// The diagnostic part indices of a success body.
pub open spec fn success_skipped(body: SuccessBody) -> Seq<usize> {
    match body {
        SuccessBody::ShapeA { candidates } => shape_a_skipped(candidates.deep_view()),
        _ => Seq::<usize>::empty(),
    }
}

/// Normalization failure: the success body matched neither known shape.
#[derive(Clone, Copy, Debug, PartialEq, Eq, Structural)]
pub enum NormalizeError {
    UnsupportedShape,
}

/// The outcome of normalizing a success body: the items, and the indices of
/// parts whose inline image was dropped for a decode failure — the
/// diagnostic channel beside the items.
pub struct Normalized {
    pub items: Vec<ContentItem>,
    pub skipped_parts: Vec<usize>,
}

/// Normalizes the parts of one Shape-A candidate.
fn normalize_parts(parts: &Vec<ResponsePart>) -> (r: (Vec<ContentItem>, Vec<usize>))
    ensures
        r.0.deep_view() == parts_items(parts.deep_view()),
        r.1@ == parts_skipped(parts.deep_view()),
{
    let ghost pv = parts.deep_view();
    let mut items: Vec<ContentItem> = Vec::new();
    let mut skipped: Vec<usize> = Vec::new();
    let mut k: usize = 0;
    while k < parts.len()
        invariant
            pv == parts.deep_view(),
            pv.len() == parts@.len(),
            k <= parts@.len(),
            items.deep_view() == parts_items(pv.take(k as int)),
            skipped@ == parts_skipped(pv.take(k as int)),
        decreases parts@.len() - k,
    {
        let ghost items0 = items.deep_view();
        let ghost skipped0 = skipped@;
        let part = &parts[k];
        proof {
            assert(pv[k as int] == part.deep_view());
            assert(pv.take(k as int + 1).drop_last() =~= pv.take(k as int));
            assert(pv.take(k as int + 1).last() == pv[k as int]);
        }
        if let Some(inline) = &part.inline_data {
            match decode_base64(inline.data.as_str()) {
                Ok(bytes) => {
                    items.push(ContentItem::Image { mime_type: inline.mime_type.clone(), bytes });
                },
                Err(_) => {
                    skipped.push(k);
                },
            }
        }
        if let Some(t) = &part.text {
            items.push(ContentItem::Text { text: t.clone() });
        }
        proof {
            assert(items.deep_view() =~= items0 + part_items(pv[k as int]));
            assert(skipped@ =~= skipped0 + parts_skipped(pv.take(k as int + 1)).skip(
                skipped0.len() as int,
            ));
            assert(items.deep_view() =~= parts_items(pv.take(k as int + 1)));
            assert(skipped@ =~= parts_skipped(pv.take(k as int + 1)));
        }
        k += 1;
    }
    proof {
        assert(pv.take(parts@.len() as int) =~= pv);
    }
    (items, skipped)
}

/// Sniffs the canonical MIME type out of a whole content string.
fn sniff_mime(content: &str) -> (m: String)
    ensures
        m@ == spec_sniff_mime(content@),
{
    if contains_str(content, "png") {
        String::from_str("image/png")
    } else if contains_str(content, "jpeg") || contains_str(content, "jpg") {
        String::from_str("image/jpeg")
    } else if contains_str(content, "gif") {
        String::from_str("image/gif")
    } else if contains_str(content, "webp") {
        String::from_str("image/webp")
    } else {
        String::from_str("image/png")
    }
}

/// Normalizes one Shape-B content string.
fn normalize_content(content: &String) -> (items: Vec<ContentItem>)
    ensures
        items.deep_view() == shape_b_items(content@),
{
    let s = content.as_str();
    let n = s.unicode_len();
    let markdown = lit_at_exec(s, 0, "![image](data:image/");
    let bare = lit_at_exec(s, 0, "data:image/");
    let mut items: Vec<ContentItem> = Vec::new();
    if !(markdown || bare) {
        items.push(ContentItem::Text { text: content.clone() });
        proof {
            assert(items.deep_view() =~= shape_b_items(content@));
        }
        return items;
    }
    let k = scan_find_char(s, 0, ',');
    if k == n {
        items.push(ContentItem::Text { text: content.clone() });
        proof {
            assert(items.deep_view() =~= shape_b_items(content@));
        }
        return items;
    }
    let rest = s.substring_char(k + 1, n);
    let trim = lit_at_exec(s, 0, "![image](");
    let payload: &str = if trim {
        let p = scan_find_char(rest, 0, ')');
        rest.substring_char(0, p)
    } else {
        rest
    };
    proof {
        assert(payload@ == shape_b_payload(content@));
    }
    match decode_base64(payload) {
        Ok(bytes) => {
            let mime_type = sniff_mime(s);
            items.push(ContentItem::Image { mime_type, bytes });
            proof {
                assert(items.deep_view() =~= shape_b_items(content@));
            }
            items
        },
        Err(_) => {
            items.push(ContentItem::Text { text: content.clone() });
            proof {
                assert(items.deep_view() =~= shape_b_items(content@));
            }
            items
        },
    }
}

/// Normalizes a success body into content items. Fails exactly on a body
/// that matches neither known shape; then no items are produced at all.
pub fn normalize(body: &SuccessBody) -> (r: Result<Normalized, NormalizeError>)
    ensures
        r is Err <==> body is Unrecognized,
        r matches Ok(n) ==> n.items.deep_view() == success_items(*body) && n.skipped_parts@
            == success_skipped(*body),
{
    match body {
        SuccessBody::ShapeA { candidates } => {
            if candidates.len() == 0 {
                let n = Normalized { items: Vec::new(), skipped_parts: Vec::new() };
                proof {
                    assert(n.items.deep_view() =~= success_items(*body));
                    assert(n.skipped_parts@ =~= success_skipped(*body));
                }
                Ok(n)
            } else {
                let (items, skipped) = normalize_parts(&candidates[0].parts);
                proof {
                    assert(candidates.deep_view()[0] == candidates@[0].deep_view());
                }
                Ok(Normalized { items, skipped_parts: skipped })
            }
        },
        SuccessBody::ShapeB { choices, .. } => {
            if choices.len() == 0 {
                let n = Normalized { items: Vec::new(), skipped_parts: Vec::new() };
                proof {
                    assert(n.items.deep_view() =~= success_items(*body));
                    assert(n.skipped_parts@ =~= success_skipped(*body));
                }
                Ok(n)
            } else {
                let items = normalize_content(&choices[0].content);
                proof {
                    assert(choices.deep_view()[0] == choices@[0].deep_view());
                }
                Ok(Normalized { items, skipped_parts: Vec::new() })
            }
        },
        SuccessBody::Unrecognized => Err(NormalizeError::UnsupportedShape),
    }
}

/// Number of text items.
pub open spec fn count_texts(items: Seq<ItemView>) -> nat {
    items.filter(|it: ItemView| it is Text).len()
}

/// Number of image items.
pub open spec fn count_images(items: Seq<ItemView>) -> nat {
    items.filter(|it: ItemView| it is Image).len()
}

/// Number of parts carrying text.
pub open spec fn count_parts_with_text(parts: Seq<PartView>) -> nat {
    parts.filter(|p: PartView| p.text is Some).len()
}

/// Number of parts carrying inline data.
pub open spec fn count_parts_with_inline(parts: Seq<PartView>) -> nat {
    parts.filter(|p: PartView| p.inline_data is Some).len()
}

/// Law: over a Shape-A part list whose inline payloads all decode, the
/// normalized items hold exactly one text item per part with text and one
/// image item per part with inline data, whatever order the two stand in
/// within a part.
pub proof fn lemma_shape_a_counts(parts: Seq<PartView>)
    requires
        forall|k: int| #![auto]
            0 <= k < parts.len() && parts[k].inline_data is Some ==> b64_decodable(
                parts[k].inline_data->0.data,
            ),
    ensures
        count_texts(parts_items(parts)) == count_parts_with_text(parts),
        count_images(parts_items(parts)) == count_parts_with_inline(parts),
    decreases parts.len(),
{
    reveal_with_fuel(Seq::filter, 3);
    if parts.len() > 0 {
        let prefix = parts.drop_last();
        let last = parts.last();
        assert(forall|k: int| #![auto]
            0 <= k < prefix.len() && prefix[k].inline_data is Some ==> b64_decodable(
                prefix[k].inline_data->0.data,
            ));
        lemma_shape_a_counts(prefix);
        let is_text = |it: ItemView| it is Text;
        let is_image = |it: ItemView| it is Image;
        Seq::filter_distributes_over_add(parts_items(prefix), part_items(last), is_text);
        Seq::filter_distributes_over_add(parts_items(prefix), part_items(last), is_image);
        assert(b64_decodable(last.inline_data->0.data) || last.inline_data is None);
        assert(part_items(last).filter(is_text).len() == (if last.text is Some {
            1int
        } else {
            0int
        }));
        assert(part_items(last).filter(is_image).len() == (if last.inline_data is Some {
            1int
        } else {
            0int
        }));
        assert(parts.filter(|p: PartView| p.text is Some).len() == prefix.filter(
            |p: PartView| p.text is Some,
        ).len() + (if last.text is Some {
            1int
        } else {
            0int
        }));
        assert(parts.filter(|p: PartView| p.inline_data is Some).len() == prefix.filter(
            |p: PartView| p.inline_data is Some,
        ).len() + (if last.inline_data is Some {
            1int
        } else {
            0int
        }));
    } else {
        assert(parts_items(parts).filter(|it: ItemView| it is Text) =~= Seq::<ItemView>::empty());
        assert(parts_items(parts).filter(|it: ItemView| it is Image) =~= Seq::<ItemView>::empty());
        assert(parts.filter(|p: PartView| p.text is Some) =~= Seq::<PartView>::empty());
        assert(parts.filter(|p: PartView| p.inline_data is Some) =~= Seq::<PartView>::empty());
    }
}

} // verus!
