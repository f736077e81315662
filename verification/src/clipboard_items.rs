//! The items that the page exchanges with the clipboard.
use vstd::prelude::*;
use vstd::string::*;

use crate::clipboard;
use crate::encoding;
use crate::text;

verus! {

/// One form of what is on the clipboard.
pub struct ClipboardItemPayload {
    pub mime_type: String,
    pub text: Option<String>,
    pub base64: Option<String>,
}

/// The contents of a [`ClipboardItemPayload`].
pub struct ItemView {
    pub mime_type: Seq<char>,
    pub text: Option<Seq<char>>,
    pub base64: Option<Seq<char>>,
}

impl View for ClipboardItemPayload {
    type V = ItemView;

    open spec fn view(&self) -> ItemView {
        ItemView {
            mime_type: self.mime_type@,
            text: text::optional_text(self.text),
            base64: text::optional_text(self.base64),
        }
    }
}

/// The contents of a list of items.
pub open spec fn items_view(items: Seq<ClipboardItemPayload>) -> Seq<ItemView> {
    Seq::new(items.len(), |i: int| items[i]@)
}

// ---------------------------------------------------------------------------
// Reading
// ---------------------------------------------------------------------------
/// The bytes of an optional buffer.
pub open spec fn optional_bytes(bytes: Option<Vec<u8>>) -> Option<Seq<u8>> {
    match bytes {
        Some(b) => Some(b@),
        None => None,
    }
}

/// The item of plain text.
pub open spec fn text_items(bytes: Option<Seq<u8>>) -> Seq<ItemView> {
    match bytes {
        Some(b) => match clipboard::unicode_text(b) {
            Some(t) => seq![ItemView { mime_type: "text/plain"@, text: Some(t), base64: None }],
            None => Seq::empty(),
        },
        None => Seq::empty(),
    }
}

/// The item of HTML.
pub open spec fn html_items(bytes: Option<Seq<u8>>) -> Seq<ItemView> {
    match bytes {
        Some(b) => match clipboard::html_text(b) {
            Some(t) => seq![ItemView { mime_type: "text/html"@, text: Some(t), base64: None }],
            None => Seq::empty(),
        },
        None => Seq::empty(),
    }
}

/// The item of an image.
pub open spec fn png_items(bytes: Option<Seq<u8>>) -> Seq<ItemView> {
    match bytes {
        Some(b) => seq![
            ItemView {
                mime_type: "image/png"@,
                text: None,
                base64: Some(encoding::base64_text(b)),
            },
        ],
        None => Seq::empty(),
    }
}

/// The items on the clipboard, from the bytes of its Unicode text, of its HTML and
/// of its image, as far as it holds them. The item of the image, put on the clipboard
/// again, is the same image.
pub fn read_clipboard_items(
    unicode: Option<Vec<u8>>,
    html: Option<Vec<u8>>,
    png: Option<Vec<u8>>,
) -> (r: Vec<ClipboardItemPayload>)
    requires
        png matches Some(b) ==> encoding::fits_base64(b@),
    ensures
        items_view(r@) == text_items(optional_bytes(unicode)) + html_items(optional_bytes(html))
            + png_items(optional_bytes(png)),
        png matches Some(b) ==> {
            let item = items_view(r@).last();
            &&& item.base64 is Some
            &&& encoding::base64_bytes(item.base64->0) is Ok
            &&& encoding::base64_bytes(item.base64->0)->Ok_0 == b@
            &&& item_plan(item).writes.len() > 0
            &&& item_plan(item).writes[0] == WriteView::Png(b@)
        },
{
    proof {
        reveal_strlit("text/plain");
        reveal_strlit("text/html");
        reveal_strlit("image/png");
        assert("text/plain"@.len() == 10);
        assert("text/html"@[0] == 't' && "image/png"@[0] == 'i' && "image/png"@.len() == 9);
    }
    let mut items: Vec<ClipboardItemPayload> = Vec::new();
    let ghost texts = text_items(optional_bytes(unicode));
    let ghost htmls = html_items(optional_bytes(html));
    match unicode {
        Some(bytes) => match clipboard::read_unicode_text(bytes.as_slice()) {
            Some(t) => items.push(
                ClipboardItemPayload {
                    mime_type: "text/plain".to_owned(),
                    text: Some(t),
                    base64: None,
                },
            ),
            None => {},
        },
        None => {},
    }
    assert(items_view(items@) =~= texts);
    match html {
        Some(bytes) => match clipboard::read_html_text(bytes) {
            Some(t) => items.push(
                ClipboardItemPayload {
                    mime_type: "text/html".to_owned(),
                    text: Some(t),
                    base64: None,
                },
            ),
            None => {},
        },
        None => {},
    }
    assert(items_view(items@) =~= texts + htmls);
    match png {
        Some(bytes) => {
            let base64: String = encoding::encode_base64(bytes.as_slice());
            items.push(
                ClipboardItemPayload {
                    mime_type: "image/png".to_owned(),
                    text: None,
                    base64: Some(base64),
                },
            );
        },
        None => {},
    }
    assert(items_view(items@) =~= texts + htmls + png_items(optional_bytes(png)));
    items
}

// ---------------------------------------------------------------------------
// Writing
// ---------------------------------------------------------------------------
/// Bytes to put on the clipboard in one of its formats.
pub enum ClipboardWrite {
    /// As `CF_UNICODETEXT`.
    UnicodeText(Vec<u8>),
    /// As the registered format `HTML Format`.
    Html(Vec<u8>),
    /// As the registered format `PNG`.
    Png(Vec<u8>),
    /// As `CF_DIB`.
    Dib(Vec<u8>),
}

/// The contents of a [`ClipboardWrite`].
pub enum WriteView {
    UnicodeText(Seq<u8>),
    Html(Seq<u8>),
    Png(Seq<u8>),
    Dib(Seq<u8>),
}

impl View for ClipboardWrite {
    type V = WriteView;

    open spec fn view(&self) -> WriteView {
        match self {
            ClipboardWrite::UnicodeText(bytes) => WriteView::UnicodeText(bytes@),
            ClipboardWrite::Html(bytes) => WriteView::Html(bytes@),
            ClipboardWrite::Png(bytes) => WriteView::Png(bytes@),
            ClipboardWrite::Dib(bytes) => WriteView::Dib(bytes@),
        }
    }
}

/// The contents of a list of writes.
pub open spec fn writes_view(writes: Seq<ClipboardWrite>) -> Seq<WriteView> {
    Seq::new(writes.len(), |i: int| writes[i]@)
}

/// What to put on the clipboard, in order, and what is wrong with the items behind
/// that, if anything is.
pub struct ClipboardPlan {
    pub writes: Vec<ClipboardWrite>,
    pub failure: Option<String>,
}

/// The contents of a [`ClipboardPlan`].
pub struct PlanView {
    pub writes: Seq<WriteView>,
    pub failure: Option<Seq<char>>,
}

impl View for ClipboardPlan {
    type V = PlanView;

    open spec fn view(&self) -> PlanView {
        PlanView {
            writes: writes_view(self.writes@),
            failure: text::optional_text(self.failure),
        }
    }
}

/// A plan of one step.
pub open spec fn write_one(write: WriteView) -> PlanView {
    PlanView { writes: seq![write], failure: None }
}

/// A plan that fails at once.
pub open spec fn write_none(failure: Option<Seq<char>>) -> PlanView {
    PlanView { writes: Seq::empty(), failure }
}

/// A text, or nothing.
pub open spec fn text_or_empty(t: Option<Seq<char>>) -> Seq<char> {
    match t {
        Some(s) => s,
        None => Seq::empty(),
    }
}

/// How an image is put on the clipboard: its file, and its bitmap if it can be made.
pub open spec fn png_plan(bytes: Seq<u8>, dib: Result<Seq<u8>, Seq<char>>) -> PlanView {
    match dib {
        Ok(bitmap) => PlanView {
            writes: seq![WriteView::Png(bytes), WriteView::Dib(bitmap)],
            failure: None,
        },
        Err(error) => PlanView { writes: seq![WriteView::Png(bytes)], failure: Some(error) },
    }
}

/// How an image that was read from Base64 is put on the clipboard.
pub open spec fn decoded_png_plan(decoded: Result<Seq<u8>, Seq<char>>) -> PlanView {
    match decoded {
        Err(error) => write_none(
            Some("Could not decode image/png clipboard payload: "@ + error),
        ),
        Ok(bytes) => png_plan(bytes, clipboard::png_dib(clipboard::image_pixels(bytes))),
    }
}

/// How one item is put on the clipboard. Items of other types are left out.
pub open spec fn item_plan(item: ItemView) -> PlanView {
    if item.mime_type == "text/plain"@ {
        write_one(
            WriteView::UnicodeText(clipboard::unicode_text_bytes(text_or_empty(item.text))),
        )
    } else if item.mime_type == "text/html"@ {
        write_one(WriteView::Html(vstd::utf8::encode_utf8(text_or_empty(item.text))))
    } else if item.mime_type == "image/png"@ {
        match item.base64 {
            None => write_none(Some("image/png item is missing base64."@)),
            Some(b) => decoded_png_plan(encoding::base64_bytes(b)),
        }
    } else {
        write_none(None)
    }
}

/// One plan after another; the second is not begun where the first fails.
pub open spec fn plan_followed_by(first: PlanView, second: PlanView) -> PlanView {
    if first.failure is Some {
        first
    } else {
        PlanView { writes: first.writes + second.writes, failure: second.failure }
    }
}

/// How a list of items is put on the clipboard.
pub open spec fn items_plan(items: Seq<ItemView>) -> PlanView
    decreases items.len(),
{
    if items.len() == 0 {
        write_none(None)
    } else {
        plan_followed_by(items_plan(items.drop_last()), item_plan(items.last()))
    }
}

fn single_write(write: ClipboardWrite) -> (r: ClipboardPlan)
    ensures
        r@ == write_one(write@),
{
    let mut writes: Vec<ClipboardWrite> = Vec::new();
    writes.push(write);
    let r = ClipboardPlan { writes, failure: None };
    assert(r@.writes =~= seq![write@]);
    r
}

fn no_write(failure: Option<String>) -> (r: ClipboardPlan)
    ensures
        r@ == write_none(text::optional_text(failure)),
{
    let r = ClipboardPlan { writes: Vec::new(), failure };
    assert(r@.writes =~= Seq::<WriteView>::empty());
    r
}

fn item_text(t: &Option<String>) -> (r: String)
    ensures
        r@ == text_or_empty(text::optional_text(*t)),
{
    match t {
        Some(s) => s.clone(),
        None => String::new(),
    }
}

/// How an image is put on the clipboard, `dib` being its bitmap or what is wrong
/// with it.
pub fn plan_png(bytes: Vec<u8>, dib: Result<Vec<u8>, String>) -> (r: ClipboardPlan)
    ensures
        r@ == png_plan(bytes@, encoding::decoded_view(dib)),
{
    let ghost file = bytes@;
    let mut plan: ClipboardPlan = single_write(ClipboardWrite::Png(bytes));
    assert(plan@.writes == seq![WriteView::Png(file)]);
    assert(plan@.writes.len() == 1 && plan@.writes[0] == WriteView::Png(file));
    match dib {
        Ok(bitmap) => {
            let ghost image = bitmap@;
            let ghost before = plan.writes@;
            plan.writes.push(ClipboardWrite::Dib(bitmap));
            assert(plan.writes@[0] == before[0]);
            assert(plan@.writes =~= seq![WriteView::Png(file), WriteView::Dib(image)]);
        },
        Err(error) => {
            plan.failure = Some(error);
        },
    }
    plan
}

/// How an image that was read from Base64 is put on the clipboard, `decoded` being its
/// bytes or what is wrong with the Base64 text.
pub fn plan_decoded_png(decoded: Result<Vec<u8>, String>) -> (r: ClipboardPlan)
    ensures
        r@ == decoded_png_plan(encoding::decoded_view(decoded)),
{
    match decoded {
        Err(error) => no_write(
            Some(
                text::concat2(
                    "Could not decode image/png clipboard payload: ",
                    error.as_str(),
                ),
            ),
        ),
        Ok(bytes) => {
            let dib: Result<Vec<u8>, String> = clipboard::png_bytes_to_cf_dib(bytes.as_slice());
            plan_png(bytes, dib)
        },
    }
}

/// How one item is put on the clipboard.
pub fn plan_clipboard_item(item: &ClipboardItemPayload) -> (r: ClipboardPlan)
    ensures
        r@ == item_plan(item@),
{
    let mime_type: &str = item.mime_type.as_str();
    if text::same_text(mime_type, "text/plain") {
        let t: String = item_text(&item.text);
        single_write(ClipboardWrite::UnicodeText(clipboard::write_unicode_text(t.as_str())))
    } else if text::same_text(mime_type, "text/html") {
        let t: String = item_text(&item.text);
        single_write(ClipboardWrite::Html(clipboard::write_html_text(t.as_str())))
    } else if text::same_text(mime_type, "image/png") {
        match &item.base64 {
            None => no_write(Some("image/png item is missing base64.".to_owned())),
            Some(base64) => plan_decoded_png(encoding::decode_base64(base64.as_str())),
        }
    } else {
        no_write(None)
    }
}

/// How a list of items is put on the clipboard: item by item, up to the first that
/// something is wrong with.
pub fn plan_clipboard_write(items: &Vec<ClipboardItemPayload>) -> (r: ClipboardPlan)
    ensures
        r@ == items_plan(items_view(items@)),
{
    let mut plan: ClipboardPlan = no_write(None);
    let mut i: usize = 0;
    let ghost all = items_view(items@);
    assert(all.take(0) =~= Seq::<ItemView>::empty());
    while i < items.len()
        invariant
            i <= items.len(),
            all == items_view(items@),
            plan@ == items_plan(all.take(i as int)),
        decreases items.len() - i,
    {
        assert(all.take(i + 1).drop_last() =~= all.take(i as int));
        assert(all.take(i + 1).last() == items@[i as int]@);
        if plan.failure.is_none() {
            let mut next: ClipboardPlan = plan_clipboard_item(&items[i]);
            let ghost first = plan.writes@;
            let ghost second = next.writes@;
            plan.writes.append(&mut next.writes);
            plan.failure = next.failure;
            assert(writes_view(plan.writes@) =~= writes_view(first) + writes_view(second));
        }
        i += 1;
    }
    assert(all.take(items.len() as int) =~= all);
    plan
}

/// Law: what stands behind an item that something is wrong with is not put on the
/// clipboard.
pub proof fn law_writing_stops_at_the_first_failure(before: Seq<ItemView>, item: ItemView)
    requires
        items_plan(before).failure is Some,
    ensures
        items_plan(before.push(item)) == items_plan(before),
{
    assert(before.push(item).drop_last() =~= before);
}

/// Law: plain text that was put on the clipboard is read as one item of plain text
/// with that text, up to its first NUL if it has one, whatever bytes the clipboard
/// has behind it.
pub proof fn law_plain_text_item_round_trip(t: Seq<char>, padding: Seq<u8>)
    ensures
        ({
            let item = ItemView { mime_type: "text/plain"@, text: Some(t), base64: None };
            &&& item_plan(item).failure is None
            &&& item_plan(item).writes.len() == 1
            &&& item_plan(item).writes[0] matches WriteView::UnicodeText(bytes) && text_items(
                Some(bytes + padding),
            ) == seq![ItemView { text: Some(clipboard::until_nul(t)), ..item }]
        }),
{
    clipboard::law_unicode_text_round_trip(t, padding);
}

/// Law: HTML that was put on the clipboard is read as one item of HTML with that
/// text, without NULs at its end, however many zeros the clipboard has behind it.
pub proof fn law_html_item_round_trip(t: Seq<char>, zeros: Seq<u8>)
    requires
        forall|i: int| 0 <= i < zeros.len() ==> #[trigger] zeros[i] == 0,
    ensures
        ({
            let item = ItemView { mime_type: "text/html"@, text: Some(t), base64: None };
            &&& item_plan(item).failure is None
            &&& item_plan(item).writes.len() == 1
            &&& item_plan(item).writes[0] matches WriteView::Html(bytes) && html_items(
                Some(bytes + zeros),
            ) == seq![ItemView { text: Some(clipboard::without_trailing_nuls(t)), ..item }]
        }),
{
    reveal_strlit("text/plain");
    reveal_strlit("text/html");
    assert("text/plain"@.len() == 10 && "text/html"@.len() == 9);
    clipboard::law_html_round_trip(t, zeros);
}

/// Law: as long as nothing is wrong, the writes of one more item come behind those of the
/// items before it, and what is wrong with it is what is wrong with all.
pub proof fn law_items_are_written_one_after_another(before: Seq<ItemView>, item: ItemView)
    requires
        items_plan(before).failure is None,
    ensures
        items_plan(before.push(item)).writes == items_plan(before).writes + item_plan(item).writes,
        items_plan(before.push(item)).failure == item_plan(item).failure,
        items_plan(Seq::empty()).writes.len() == 0,
        items_plan(Seq::empty()).failure is None,
{
    assert(before.push(item).drop_last() =~= before);
}

proof fn lemma_types_differ()
    ensures
        "text/plain"@ != "text/html"@,
        "text/plain"@ != "image/png"@,
        "text/html"@ != "image/png"@,
{
    reveal_strlit("text/plain");
    reveal_strlit("text/html");
    reveal_strlit("image/png");
    assert("text/plain"@.len() == 10 && "text/html"@.len() == 9 && "image/png"@.len() == 9);
    assert("text/html"@[0] == 't' && "image/png"@[0] == 'i');
}

/// Law: how the items of each type are put on the clipboard. Text without a text is
/// empty, an image needs its Base64 text, and items of other types are passed over.
pub proof fn law_items_go_by_their_type(item: ItemView)
    ensures
        item.mime_type == "text/plain"@ && item.text is None ==> item_plan(item).writes == seq![
            WriteView::UnicodeText(seq![0u8, 0u8]),
        ] && item_plan(item).failure is None,
        item.mime_type == "text/html"@ ==> item_plan(item).failure is None && item_plan(
            item,
        ).writes.len() == 1 && (item_plan(item).writes[0] matches WriteView::Html(bytes) && bytes
            == vstd::utf8::encode_utf8(match item.text {
            Some(t) => t,
            None => Seq::empty(),
        })),
        item.mime_type == "image/png"@ && item.base64 is None ==> item_plan(item).writes.len() == 0
            && item_plan(item).failure == Some("image/png item is missing base64."@),
        item.mime_type != "text/plain"@ && item.mime_type != "text/html"@ && item.mime_type
            != "image/png"@ ==> item_plan(item).writes.len() == 0 && item_plan(
            item,
        ).failure is None,
{
    lemma_types_differ();
    if item.mime_type == "text/plain"@ && item.text is None {
        clipboard::law_text_bytes_have_the_low_byte_first(Seq::empty());
        assert(clipboard::utf16_units(Seq::empty()).len() == 0);
        assert(clipboard::unicode_text_bytes(Seq::empty()) =~= seq![0u8, 0u8]);
    }
}

/// Law: an image is put on the clipboard as the file that its Base64 text stands for and,
/// behind it, as its bitmap; where there is no bitmap the file is still put there, and the
/// reason is told. Base64 that cannot be read puts nothing there.
pub proof fn law_images_are_written_twice(item: ItemView)
    requires
        item.mime_type == "image/png"@,
        item.base64 is Some,
    ensures
        encoding::base64_bytes(item.base64->0) matches Ok(bytes) ==> {
            let dib = clipboard::png_dib(clipboard::image_pixels(bytes));
            &&& item_plan(item).writes.len() > 0
            &&& item_plan(item).writes[0] == WriteView::Png(bytes)
            &&& dib is Ok ==> item_plan(item).writes == seq![
                WriteView::Png(bytes),
                WriteView::Dib(dib->Ok_0),
            ]
            &&& dib is Ok ==> item_plan(item).failure is None
            &&& dib is Err ==> item_plan(item).writes.len() == 1
            &&& dib is Err ==> item_plan(item).failure == Some(dib->Err_0)
        },
        encoding::base64_bytes(item.base64->0) matches Err(error) ==> item_plan(item).writes.len()
            == 0 && item_plan(item).failure == Some(
            "Could not decode image/png clipboard payload: "@ + error,
        ),
{
    lemma_types_differ();
}

/// Law: what is on the clipboard is read as one item for each form that it has: text that
/// is text, HTML that is HTML, and an image with the Base64 text of its file.
pub proof fn law_forms_are_read_as_items(bytes: Seq<u8>)
    ensures
        text_items(None).len() == 0,
        html_items(None).len() == 0,
        png_items(None).len() == 0,
        clipboard::unicode_text(bytes) is None ==> text_items(Some(bytes)).len() == 0,
        clipboard::html_text(bytes) is None ==> html_items(Some(bytes)).len() == 0,
        clipboard::unicode_text(bytes) matches Some(t) ==> text_items(Some(bytes)) == seq![
            ItemView { mime_type: "text/plain"@, text: Some(t), base64: None },
        ],
        clipboard::html_text(bytes) matches Some(t) ==> html_items(Some(bytes)) == seq![
            ItemView { mime_type: "text/html"@, text: Some(t), base64: None },
        ],
        png_items(Some(bytes)) == seq![
            ItemView {
                mime_type: "image/png"@,
                text: None,
                base64: Some(encoding::base64_text(bytes)),
            },
        ],
{
}

} // verus!
