//! Images attached to a user message: local paths given as `file://` URIs, the
//! media type of an image file, its data URL, and the input items of a turn.
use vstd::prelude::*;
use crate::json::JsonValue;
use crate::text::{has_prefix, lower_seq, owned, trim};
use vstd::string::StringSliceAdditionalSpecFns;

verus! {

/// The text that `String::from_utf8_lossy` makes of `bytes`.
pub uninterp spec fn lossy_text(bytes: Seq<u8>) -> Seq<char>;

/// The standard base64 text of `bytes`, with padding.
pub uninterp spec fn base64_text(bytes: Seq<u8>) -> Seq<char>;

/// Relies on `String::from_utf8_lossy`: the text depends on the bytes alone.
#[verifier::external_body]
fn utf8_lossy(bytes: &Vec<u8>) -> (r: String)
    ensures
        r@ == lossy_text(bytes@),
{
    String::from_utf8_lossy(bytes).into_owned()
}

/// Relies on base64's `STANDARD` engine: `encode` depends on the bytes alone.
#[verifier::external_body]
fn encode_base64(bytes: &Vec<u8>) -> (r: String)
    ensures
        r@ == base64_text(bytes@),
{
    base64::Engine::encode(&base64::engine::general_purpose::STANDARD, bytes)
}

/// The value of a hexadecimal digit.
pub open spec fn hex_value(b: u8) -> Option<u8> {
    if 48 <= b <= 57 {
        Some((b - 48) as u8)
    } else if 97 <= b <= 102 {
        Some((b - 97 + 10) as u8)
    } else if 65 <= b <= 70 {
        Some((b - 65 + 10) as u8)
    } else {
        None
    }
}

/// `bytes` with each `%` followed by two hexadecimal digits replaced by the byte
/// they spell; every other byte is kept.
pub open spec fn percent_decoded(bytes: Seq<u8>) -> Seq<u8>
    decreases bytes.len(),
{
    if bytes.len() == 0 {
        bytes
    } else if bytes.len() >= 3 && bytes[0] == 37 && hex_value(bytes[1]) is Some && hex_value(
        bytes[2],
    ) is Some {
        seq![(hex_value(bytes[1])->0 * 16 + hex_value(bytes[2])->0) as u8] + percent_decoded(
            bytes.skip(3),
        )
    } else {
        seq![bytes[0]] + percent_decoded(bytes.skip(1))
    }
}

/// The value of a hexadecimal digit.
fn hex_digit(b: u8) -> (r: Option<u8>)
    ensures
        r == hex_value(b),
{
    if 48 <= b && b <= 57 {
        Some(b - 48)
    } else if 97 <= b && b <= 102 {
        Some(b - 97 + 10)
    } else if 65 <= b && b <= 70 {
        Some(b - 65 + 10)
    } else {
        None
    }
}

/// Decodes percent escapes (see `percent_decoded`).
pub fn percent_decode(bytes: &Vec<u8>) -> (r: Vec<u8>)
    ensures
        r@ == percent_decoded(bytes@),
{
    let mut out: Vec<u8> = Vec::new();
    let mut i: usize = 0;
    assert(bytes@.skip(0) == bytes@);
    while i < bytes.len()
        invariant
            i <= bytes.len(),
            out@ + percent_decoded(bytes@.skip(i as int)) == percent_decoded(bytes@),
        decreases bytes.len() - i,
    {
        let ghost rest = bytes@.skip(i as int);
        if bytes[i] == 37 && bytes.len() - i > 2 {
            let hi = hex_digit(bytes[i + 1]);
            let lo = hex_digit(bytes[i + 2]);
            if hi.is_some() && lo.is_some() {
                let h = hi.unwrap();
                let l = lo.unwrap();
                let v: u8 = h * 16 + l;
                assert(rest[1] == bytes@[i + 1] && rest[2] == bytes@[i + 2]);
                assert(rest.skip(3) == bytes@.skip(i + 3));
                out.push(v);
                assert(out@ + percent_decoded(bytes@.skip(i + 3)) =~= percent_decoded(bytes@)) by {
                    assert(percent_decoded(rest) == seq![v] + percent_decoded(rest.skip(3)));
                }
                i += 3;
                continue;
            }
        }
        assert(rest.skip(1) == bytes@.skip(i + 1));
        out.push(bytes[i]);
        assert(out@ + percent_decoded(bytes@.skip(i + 1)) =~= percent_decoded(bytes@)) by {
            assert(percent_decoded(rest) == seq![rest[0]] + percent_decoded(rest.skip(1)));
        }
        i += 1;
    }
    assert(out@ =~= percent_decoded(bytes@));
    out
}

/// What follows the `file://localhost` or `file://` prefix of the trimmed `raw`;
/// none when it has neither.
pub open spec fn file_uri_rest(raw: Seq<char>) -> Option<Seq<char>> {
    let t = trim(raw);
    if has_prefix(t, "file://localhost"@) {
        Some(t.skip(16))
    } else if has_prefix(t, "file://"@) {
        Some(t.skip(7))
    } else {
        None
    }
}

/// The UTF-8 bytes of `s`.
fn utf8_bytes(s: &str) -> (r: Vec<u8>)
    ensures
        r@ == vstd::utf8::encode_utf8(s@),
{
    let b = s.as_bytes();
    let mut out: Vec<u8> = Vec::new();
    let mut i: usize = 0;
    while i < b.len()
        invariant
            i <= b@.len(),
            b@ == vstd::utf8::encode_utf8(s@),
            out@ == b@.take(i as int),
        decreases b@.len() - i,
    {
        out.push(b[i]);
        assert(b@.take(i + 1) == b@.take(i as int).push(b@[i as int]));
        i += 1;
    }
    assert(b@.take(b@.len() as int) == b@);
    out
}

/// The local path that `raw` names: trimmed, and for a `file://` URI (with or without
/// `localhost`) the percent-decoded rest, read as UTF-8.
pub fn normalize_file_path(raw: &str) -> (r: String)
    ensures
        file_uri_rest(raw@) is None ==> r@ == trim(raw@),
        file_uri_rest(raw@) matches Some(rest) ==> r@ == lossy_text(
            percent_decoded(vstd::utf8::encode_utf8(rest)),
        ),
{
    proof {
        reveal_strlit("file://localhost");
        reveal_strlit("file://");
    }
    let t = crate::text::trimmed(raw);
    let local = crate::text::chars_of("file://localhost");
    let plain = crate::text::chars_of("file://");
    let rest = if crate::text::starts_with_chars(&t, &local) {
        crate::text::slice_chars(&t, 16, t.len())
    } else if crate::text::starts_with_chars(&t, &plain) {
        crate::text::slice_chars(&t, 7, t.len())
    } else {
        return crate::text::string_of(&t);
    };
    let rest_text = crate::text::string_of(&rest);
    let decoded = percent_decode(&utf8_bytes(rest_text.as_str()));
    utf8_lossy(&decoded)
}

/// The media type of an image file by its extension.
pub open spec fn mime_for_extension(ext: Seq<char>) -> Option<Seq<char>> {
    let e = lower_seq(ext);
    if e == "png"@ {
        Some("image/png"@)
    } else if e == "jpg"@ || e == "jpeg"@ {
        Some("image/jpeg"@)
    } else if e == "gif"@ {
        Some("image/gif"@)
    } else if e == "webp"@ {
        Some("image/webp"@)
    } else if e == "bmp"@ {
        Some("image/bmp"@)
    } else if e == "tiff"@ || e == "tif"@ {
        Some("image/tiff"@)
    } else {
        None
    }
}

/// The extension of the last component of `path`: what follows its last dot, when
/// the dot is not the component's first character.
pub open spec fn extension_of(path: Seq<char>) -> Option<Seq<char>> {
    let name = crate::registry::last_component(path);
    if exists|i: int| 0 < i < name.len() && name[i] == '.' {
        let d = choose|i: int|
            0 < i < name.len() && name[i] == '.' && forall|j: int| i < j < name.len() ==> name[j] != '.';
        Some(name.skip(d + 1))
    } else {
        None
    }
}

/// The media type of the image at `path`, by its extension.
pub fn image_mime_type_for_path(path: &str) -> (r: Option<String>)
    ensures
        crate::text::opt_view(r) == match extension_of(path@) {
            Some(e) => mime_for_extension(e),
            None => None,
        },
{
    let name = crate::text::chars_of(&crate::registry::last_component_of(path));
    let mut k: usize = name.len();
    while k > 0 && name[k - 1] != '.'
        invariant
            k <= name.len(),
            forall|j: int| k <= j < name.len() ==> name@[j] != '.',
        decreases k,
    {
        k -= 1;
    }
    let ghost n = name@;
    if k <= 1 {
        proof {
            assert(!exists|i: int| 0 < i < n.len() && n[i] == '.');
        }
        return None;
    }
    let dot = k - 1;
    proof {
        let d = choose|i: int|
            0 < i < n.len() && n[i] == '.' && forall|j: int| i < j < n.len() ==> n[j] != '.';
        assert(d == dot);
    }
    let ext = crate::text::lower_chars(&crate::text::slice_chars(&name, k, name.len()));
    if crate::text::chars_eq(&ext, &crate::text::chars_of("png")) {
        Some(owned("image/png"))
    } else if crate::text::chars_eq(&ext, &crate::text::chars_of("jpg"))
        || crate::text::chars_eq(&ext, &crate::text::chars_of("jpeg")) {
        Some(owned("image/jpeg"))
    } else if crate::text::chars_eq(&ext, &crate::text::chars_of("gif")) {
        Some(owned("image/gif"))
    } else if crate::text::chars_eq(&ext, &crate::text::chars_of("webp")) {
        Some(owned("image/webp"))
    } else if crate::text::chars_eq(&ext, &crate::text::chars_of("bmp")) {
        Some(owned("image/bmp"))
    } else if crate::text::chars_eq(&ext, &crate::text::chars_of("tiff"))
        || crate::text::chars_eq(&ext, &crate::text::chars_of("tif")) {
        Some(owned("image/tiff"))
    } else {
        None
    }
}

/// The data URL of an image of media type `mime` with contents `bytes`.
pub fn image_data_url(mime: &str, bytes: &Vec<u8>) -> (r: String)
    ensures
        r@ == "data:"@ + mime@ + ";base64,"@ + base64_text(bytes@),
{
    let encoded = encode_base64(bytes);
    let head = crate::text::concat_chars(&crate::text::chars_of("data:"), &crate::text::chars_of(mime));
    let head = crate::text::concat_chars(&head, &crate::text::chars_of(";base64,"));
    crate::text::string_of(&crate::text::concat_chars(&head, &crate::text::chars_of(&encoded)))
}


/// One input item: `{type: kind, key: value}`.
pub open spec fn is_item(v: JsonValue, item: (Seq<char>, Seq<char>, Seq<char>)) -> bool {
    v matches JsonValue::Object(f) && f@.len() == 2 && f@[0].0@ == "type"@ && crate::protocol::is_text(
        f@[0].1,
        item.0,
    ) && f@[1].0@ == item.1 && crate::protocol::is_text(f@[1].1, item.2)
}

/// A reference that the agent fetches itself: a data URL or a web address.
pub open spec fn is_remote_image(t: Seq<char>) -> bool {
    has_prefix(t, "data:"@) || has_prefix(t, "http://"@) || has_prefix(t, "https://"@)
}

/// The input items of the images `imgs`: each non-blank one, trimmed, as an image URL
/// when the agent can fetch it, else as a local image path.
pub open spec fn image_items(imgs: Seq<Seq<char>>) -> Seq<(Seq<char>, Seq<char>, Seq<char>)>
    decreases imgs.len(),
{
    if imgs.len() == 0 {
        Seq::empty()
    } else {
        let prev = image_items(imgs.drop_last());
        let t = trim(imgs.last());
        if t.len() == 0 {
            prev
        } else if is_remote_image(t) {
            prev.push(("image"@, "url"@, t))
        } else {
            prev.push(("localImage"@, "path"@, t))
        }
    }
}

/// The input items of a turn: the trimmed text when it is not blank, then the images.
pub open spec fn turn_items(text: Seq<char>, imgs: Seq<Seq<char>>) -> Seq<
    (Seq<char>, Seq<char>, Seq<char>),
> {
    (if trim(text).len() > 0 {
        seq![("text"@, "text"@, trim(text))]
    } else {
        Seq::empty()
    }) + image_items(imgs)
}

/// One input item.
fn item(kind: &str, key: &str, value: Vec<char>) -> (r: JsonValue)
    ensures
        is_item(r, (kind@, key@, value@)),
{
    let mut fields: Vec<(String, JsonValue)> = Vec::new();
    fields.push((owned("type"), JsonValue::Str(owned(kind))));
    fields.push((owned(key), JsonValue::Str(crate::text::string_of(&value))));
    JsonValue::Object(fields)
}

/// The input items of a user message (see `turn_items`); refused when there are
/// none.
pub fn build_turn_input_items(text: &str, images: &Vec<String>) -> (r: Result<Vec<JsonValue>, String>)
    ensures
        match r {
            Ok(items) => items@.len() == turn_items(text@, crate::assoc::strs_view(images@)).len()
                && items@.len() > 0 && forall|i: int|
                0 <= i < items@.len() ==> is_item(
                    #[trigger] items@[i],
                    turn_items(text@, crate::assoc::strs_view(images@))[i],
                ),
            Err(e) => e@ == "empty user message"@ && turn_items(
                text@,
                crate::assoc::strs_view(images@),
            ).len() == 0,
        },
{
    let mut out: Vec<JsonValue> = Vec::new();
    let t = crate::text::trimmed(text);
    let ghost head: Seq<(Seq<char>, Seq<char>, Seq<char>)> = if trim(text@).len() > 0 {
        seq![("text"@, "text"@, trim(text@))]
    } else {
        Seq::empty()
    };
    if t.len() > 0 {
        out.push(item("text", "text", t));
    }
    let ghost imgs = crate::assoc::strs_view(images@);
    let mut i: usize = 0;
    assert(imgs.take(0) =~= Seq::<Seq<char>>::empty());
    while i < images.len()
        invariant
            i <= images.len(),
            imgs == crate::assoc::strs_view(images@),
            out@.len() == (head + image_items(imgs.take(i as int))).len(),
            forall|k: int|
                0 <= k < out@.len() ==> is_item(
                    #[trigger] out@[k],
                    (head + image_items(imgs.take(i as int)))[k],
                ),
        decreases images.len() - i,
    {
        let ghost prev = head + image_items(imgs.take(i as int));
        assert(imgs.take(i + 1).drop_last() =~= imgs.take(i as int));
        assert(imgs.take(i + 1).last() == images@[i as int]@);
        let path = crate::text::trimmed(&images[i]);
        if path.len() > 0 {
            let remote = crate::text::starts_with_chars(&path, &crate::text::chars_of("data:"))
                || crate::text::starts_with_chars(&path, &crate::text::chars_of("http://"))
                || crate::text::starts_with_chars(&path, &crate::text::chars_of("https://"));
            if remote {
                out.push(item("image", "url", path));
            } else {
                out.push(item("localImage", "path", path));
            }
            assert forall|k: int| 0 <= k < out@.len() implies is_item(
                #[trigger] out@[k],
                (head + image_items(imgs.take(i + 1)))[k],
            ) by {
                if k < prev.len() {
                    assert((head + image_items(imgs.take(i + 1)))[k] == prev[k]);
                }
            }
        } else {
            assert(head + image_items(imgs.take(i + 1)) =~= prev);
        }
        i += 1;
    }
    assert(imgs.take(images.len() as int) =~= imgs);
    if out.len() == 0 {
        return Err(owned("empty user message"));
    }
    Ok(out)
}
} // verus!
