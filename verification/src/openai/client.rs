//! Talking to the remote generation service: where requests go, what they
//! carry, and what an answer means. The requests themselves are sent by the
//! host.

use vstd::prelude::*;
use crate::image::{extension_of, file_name_of};
use crate::text::{
    all_digits,
    digits_value,
    find_after_last,
    is_digit,
    lemma_digits_value_grows,
    lemma_run_before,
    run_before,
    same_text,
    to_chars,
};

verus! {

/// Whether `text` can be the value of a header: it holds no control
/// character but the tab.
pub open spec fn is_header_value(text: Seq<char>) -> bool {
    forall|i: int|
        0 <= i < text.len() ==> ((#[trigger] text[i]) as u32 >= 32 && text[i] as u32 != 127)
            || text[i] == '\t'
}

/// `reqwest::header::HeaderValue::from_str`, of which only success is read.
/// It succeeds where no byte of the text is below 32 other than the tab, and
/// none is 127; the bytes of characters beyond ASCII are all above that.
#[verifier::external_body]
fn accepted_as_header_value(text: &str) -> (accepted: bool)
    ensures
        accepted == is_header_value(text@),
{
    reqwest::header::HeaderValue::from_str(text).is_ok()
}

/// The service's address.
pub open spec fn api_base() -> Seq<char> {
    "https://api.openai.com/v1"@
}

/// A client of the service: the key it shows, and the address it talks to.
#[derive(Debug, Clone, PartialEq, Eq)]
pub struct OpenAIClient {
    pub api_key: String,
    pub base_url: String,
}

/// The authorization that a request shows for the key `api_key`.
pub open spec fn bearer(api_key: Seq<char>) -> Seq<char> {
    "Bearer "@ + api_key
}

/// The headers of a request: the authorization, unless the key makes no
/// header value, and the content type if one is given.
pub open spec fn request_headers(api_key: Seq<char>, content_type: Option<Seq<char>>) -> Seq<
    (Seq<char>, Seq<char>),
> {
    (if is_header_value(bearer(api_key)) {
        seq![("authorization"@, bearer(api_key))]
    } else {
        Seq::<(Seq<char>, Seq<char>)>::empty()
    }) + (match content_type {
        Some(ct) => seq![("content-type"@, ct)],
        None => Seq::<(Seq<char>, Seq<char>)>::empty(),
    })
}

/// Names and values of a list of headers, as text.
pub open spec fn header_views(headers: Seq<(String, String)>) -> Seq<(Seq<char>, Seq<char>)> {
    Seq::new(headers.len(), |i: int| (headers[i].0@, headers[i].1@))
}

impl OpenAIClient {
    /// A client that shows `api_key` to the service at its usual address.
    pub fn new(api_key: String) -> (client: Self)
        ensures
            client.api_key == api_key,
            client.base_url@ == api_base(),
    {
        OpenAIClient { api_key, base_url: String::from_str("https://api.openai.com/v1") }
    }

    /// The headers of a request: see [`request_headers`].
    pub fn headers(&self, content_type: Option<&str>) -> (headers: Vec<(String, String)>)
        ensures
            header_views(headers@) == request_headers(
                self.api_key@,
                match content_type {
                    Some(ct) => Some(ct@),
                    None => None,
                },
            ),
    {
        let mut headers: Vec<(String, String)> = Vec::new();
        let mut auth = String::from_str("Bearer ");
        auth.append(self.api_key.as_str());
        if accepted_as_header_value(auth.as_str()) {
            headers.push((String::from_str("authorization"), auth));
        }
        match content_type {
            Some(ct) => {
                headers.push((String::from_str("content-type"), String::from_str(ct)));
            },
            None => {},
        }
        assert(header_views(headers@) =~= request_headers(
            self.api_key@,
            match content_type {
                Some(ct) => Some(ct@),
                None => None,
            },
        ));
        headers
    }

    /// `<base>/videos`, where videos are asked for.
    pub fn videos_url(&self) -> (url: String)
        ensures
            url@ == self.base_url@ + "/videos"@,
    {
        let mut url = self.base_url.clone();
        url.append("/videos");
        url
    }

    /// `<base>/videos/<video_id>`, where the state of a video is asked for.
    pub fn video_url(&self, video_id: &str) -> (url: String)
        ensures
            url@ == self.base_url@ + "/videos/"@ + video_id@,
    {
        let mut url = self.base_url.clone();
        url.append("/videos/");
        url.append(video_id);
        url
    }

    /// `<base>/videos/<video_id>/content`, where a finished video is fetched.
    pub fn video_content_url(&self, video_id: &str) -> (url: String)
        ensures
            url@ == self.base_url@ + "/videos/"@ + video_id@ + "/content"@,
    {
        let mut url = self.video_url(video_id);
        url.append("/content");
        url
    }

    /// `<base>/videos/<video_id>/remix`, where a video is remade.
    pub fn remix_url(&self, video_id: &str) -> (url: String)
        ensures
            url@ == self.base_url@ + "/videos/"@ + video_id@ + "/remix"@,
    {
        let mut url = self.video_url(video_id);
        url.append("/remix");
        url
    }

    /// `<base>/responses`, where a text answer is asked for.
    pub fn responses_url(&self) -> (url: String)
        ensures
            url@ == self.base_url@ + "/responses"@,
    {
        let mut url = self.base_url.clone();
        url.append("/responses");
        url
    }
}

/// How a request went, as the host saw it.
#[derive(Debug, PartialEq, Eq)]
pub enum Exchange {
    /// The request could not be sent, and why.
    NotSent(String),
    /// An answer came: whether its status is one of success, the status as
    /// text, and the body, or why the body could not be read.
    Answered { success: bool, status: String, body: Result<String, String> },
}

/// An [`Exchange`] as text.
pub enum ExchangeView {
    NotSent(Seq<char>),
    Answered { success: bool, status: Seq<char>, body: Result<Seq<char>, Seq<char>> },
}

impl View for Exchange {
    type V = ExchangeView;

    open spec fn view(&self) -> ExchangeView {
        match self {
            Exchange::NotSent(e) => ExchangeView::NotSent(e@),
            Exchange::Answered { success, status, body } => ExchangeView::Answered {
                success: *success,
                status: status@,
                body: match body {
                    Ok(text) => Ok(text@),
                    Err(e) => Err(e@),
                },
            },
        }
    }
}

/// What a request by `method` to `url` yields: the body of an answer of
/// success. A request that could not be sent, an answer of failure (with its
/// body, or `Unknown error` where that cannot be read) and a body that
/// cannot be read are failures.
pub open spec fn request_outcome(method: Seq<char>, url: Seq<char>, exchange: ExchangeView) -> Result<
    Seq<char>,
    Seq<char>,
> {
    match exchange {
        ExchangeView::NotSent(e) => Err(
            "Failed to send "@ + method + " request to "@ + url + ": "@ + e,
        ),
        ExchangeView::Answered { success, status, body } => if !success {
            Err(
                method + " "@ + url + " failed with status "@ + status + ": "@ + (match body {
                    Ok(text) => text,
                    Err(_) => "Unknown error"@,
                }),
            )
        } else {
            match body {
                Ok(text) => Ok(text),
                Err(e) => Err("Failed to read response body: "@ + e),
            }
        },
    }
}

/// Tells what a request yields: see [`request_outcome`].
pub fn exec_request(method: &str, url: &str, exchange: &Exchange) -> (r: Result<String, String>)
    ensures
        match request_outcome(method@, url@, exchange@) {
            Ok(text) => r is Ok && r->Ok_0@ == text,
            Err(e) => r is Err && r->Err_0@ == e,
        },
{
    match exchange {
        Exchange::NotSent(e) => {
            let mut message = String::from_str("Failed to send ");
            message.append(method);
            message.append(" request to ");
            message.append(url);
            message.append(": ");
            message.append(e.as_str());
            Err(message)
        },
        Exchange::Answered { success, status, body } => {
            if !*success {
                let mut message = String::from_str(method);
                message.append(" ");
                message.append(url);
                message.append(" failed with status ");
                message.append(status.as_str());
                message.append(": ");
                match body {
                    Ok(text) => message.append(text.as_str()),
                    Err(_) => message.append("Unknown error"),
                }
                Err(message)
            } else {
                match body {
                    Ok(text) => Ok(text.clone()),
                    Err(e) => {
                        let mut message = String::from_str("Failed to read response body: ");
                        message.append(e.as_str());
                        Err(message)
                    },
                }
            }
        },
    }
}

/// The key to show to the service; without one nothing can be asked of it.
pub fn get_api_key_from_store(stored: Option<String>) -> (r: Result<String, String>)
    ensures
        stored is Some ==> r is Ok && r->Ok_0 == stored->Some_0,
        stored is None ==> r is Err && r->Err_0@
            == "API key not found. Please set your OpenAI API key in settings."@,
{
    match stored {
        Some(key) => Ok(key),
        None => Err(
            String::from_str("API key not found. Please set your OpenAI API key in settings."),
        ),
    }
}

/// Whether a video must be downloaded: not if its file is there already.
pub fn needs_download(file_exists: bool) -> (download: bool)
    ensures
        download == !file_exists,
{
    !file_exists
}

/// The message for a download that ended with a status of failure.
pub fn download_status_failure(status: &str) -> (message: String)
    ensures
        message@ == "Failed to download video: HTTP "@ + status@,
{
    let mut message = String::from_str("Failed to download video: HTTP ");
    message.append(status);
    message
}

/// The message for a downloaded video that could not be saved.
pub fn save_failure(save_path: &str, error: &str) -> (message: String)
    ensures
        message@ == "Failed to save video to "@ + save_path@ + ": "@ + error@,
{
    let mut message = String::from_str("Failed to save video to ");
    message.append(save_path);
    message.append(": ");
    message.append(error);
    message
}

/// The number that `s` writes out, if it is one that a `u32` holds: digits,
/// with a plus sign before them at most.
pub open spec fn parsed_u32(s: Seq<char>) -> Option<int> {
    let digits = if s.len() > 0 && s[0] == '+' {
        s.drop_first()
    } else {
        s
    };
    if digits.len() > 0 && all_digits(digits) && digits_value(digits) <= u32::MAX {
        Some(digits_value(digits))
    } else {
        None
    }
}

/// What comes before the first `x` of `s`, and what comes after it.
pub open spec fn split_at_x(s: Seq<char>) -> Option<(Seq<char>, Seq<char>)> {
    if run_before(s, 'x') < s.len() {
        Some((s.take(run_before(s, 'x')), s.skip(run_before(s, 'x') + 1)))
    } else {
        None
    }
}

/// Width and height that the size `size` names, as in `1280x720`.
pub open spec fn parsed_size(size: Seq<char>) -> Option<(int, int)> {
    match split_at_x(size) {
        Some((w, h)) => match (parsed_u32(w), parsed_u32(h)) {
            (Some(width), Some(height)) => Some((width, height)),
            _ => None,
        },
        None => None,
    }
}

/// Reads the number in `chars[from..to]`: see [`parsed_u32`].
fn parse_u32_at(chars: &Vec<char>, from: usize, to: usize) -> (r: Option<u32>)
    requires
        from <= to <= chars.len(),
    ensures
        match parsed_u32(chars@.subrange(from as int, to as int)) {
            Some(v) => r == Some(v as u32),
            None => r is None,
        },
{
    let ghost s = chars@.subrange(from as int, to as int);
    let start: usize = if from < to && chars[from] == '+' {
        from + 1
    } else {
        from
    };
    let ghost digits = chars@.subrange(start as int, to as int);
    assert(digits =~= if s.len() > 0 && s[0] == '+' {
        s.drop_first()
    } else {
        s
    });
    if start == to {
        return None;
    }
    let mut value: u64 = 0;
    let mut i: usize = start;
    assert(digits.take(0) =~= Seq::<char>::empty());
    while i < to
        invariant
            from <= start <= i <= to <= chars.len(),
            start < to,
            s == chars@.subrange(from as int, to as int),
            digits == (if s.len() > 0 && s[0] == '+' {
                s.drop_first()
            } else {
                s
            }),
            digits == chars@.subrange(start as int, to as int),
            forall|k: int| 0 <= k < i - start ==> is_digit(#[trigger] digits[k]),
            value == digits_value(digits.take(i - start)),
            value <= u32::MAX,
        decreases to - i,
    {
        let c = chars[i];
        assert(digits[i - start] == c);
        if !('0' <= c && c <= '9') {
            return None;
        }
        let ghost seen = digits.take(i - start);
        let ghost next = digits.take(i + 1 - start);
        assert(next.drop_last() =~= seen);
        assert(next.last() == c);
        value = value * 10 + (c as u32 - 48) as u64;
        if value > u32::MAX as u64 {
            proof {
                if all_digits(digits) {
                    lemma_digits_value_grows(digits, i + 1 - start);
                }
            }
            return None;
        }
        i = i + 1;
    }
    assert(digits.take(to - start) =~= digits);
    Some(value as u32)
}

/// Reads a size: see [`parsed_size`].
pub fn parse_size(size: &str) -> (r: Option<(u32, u32)>)
    ensures
        match parsed_size(size@) {
            Some((w, h)) => r == Some((w as u32, h as u32)),
            None => r is None,
        },
{
    let chars = to_chars(size);
    let n = chars.len();
    let mut at: usize = 0;
    while at < n && chars[at] != 'x'
        invariant
            at <= n,
            n == chars.len(),
            forall|k: int| 0 <= k < at ==> chars@[k] != 'x',
        decreases n - at,
    {
        at = at + 1;
    }
    proof {
        lemma_run_before(chars@, 'x', at as int);
    }
    if at >= n {
        return None;
    }
    proof {
        assert(chars@.take(at as int) =~= chars@.subrange(0, at as int));
        assert(chars@.skip(at + 1) =~= chars@.subrange(at + 1, n as int));
    }
    let width = parse_u32_at(&chars, 0, at);
    let height = parse_u32_at(&chars, at + 1, n);
    match (width, height) {
        (Some(w), Some(h)) => Some((w, h)),
        _ => None,
    }
}

/// The kind of image that a reference image at `path` is, going by its
/// extension as it is written; JPEG, PNG and WebP are taken.
pub open spec fn reference_mime_type(path: Seq<char>) -> Option<Seq<char>> {
    match extension_of(path) {
        Some(ext) => if ext == "jpg"@ || ext == "jpeg"@ {
            Some("image/jpeg"@)
        } else if ext == "png"@ {
            Some("image/png"@)
        } else if ext == "webp"@ {
            Some("image/webp"@)
        } else {
            None
        },
        None => None,
    }
}

/// The name under which a reference image at `path` is sent: the name of
/// its file, or `image` where the path leads to no file.
pub open spec fn reference_file_name(path: Seq<char>) -> Seq<char> {
    let name = file_name_of(path);
    if name.len() == 0 || name == ".."@ {
        "image"@
    } else {
        name
    }
}

/// A file that goes with a form.
#[derive(Debug, Clone, PartialEq, Eq)]
pub struct FormFile {
    pub file_name: String,
    pub mime_type: String,
    pub bytes: Vec<u8>,
}

/// The form that asks for a video: its text fields in order, and the
/// reference image if there is one.
#[derive(Debug, Clone, PartialEq, Eq)]
pub struct VideoForm {
    pub fields: Vec<(String, String)>,
    pub input_reference: Option<FormFile>,
}

/// The text fields of the form: model and prompt, then size and seconds
/// where they are given.
pub open spec fn form_fields(
    model: Seq<char>,
    prompt: Seq<char>,
    size: Option<Seq<char>>,
    seconds: Option<Seq<char>>,
) -> Seq<(Seq<char>, Seq<char>)> {
    seq![("model"@, model), ("prompt"@, prompt)] + (match size {
        Some(s) => seq![("size"@, s)],
        None => Seq::<(Seq<char>, Seq<char>)>::empty(),
    }) + (match seconds {
        Some(s) => seq![("seconds"@, s)],
        None => Seq::<(Seq<char>, Seq<char>)>::empty(),
    })
}

/// The size that a reference image is brought to before it is sent: the one
/// that the request names, if it names one that can be read.
pub fn reference_target_size(size: Option<&str>) -> (target: Option<(u32, u32)>)
    ensures
        match size {
            Some(s) => match parsed_size(s@) {
                Some((w, h)) => target == Some((w as u32, h as u32)),
                None => target is None,
            },
            None => target is None,
        },
{
    match size {
        Some(s) => parse_size(s),
        None => None,
    }
}

/// The message for a reference image that is not there.
pub fn reference_missing(image_path: &str) -> (message: String)
    ensures
        message@ == "Image file not found: "@ + image_path@,
{
    let mut message = String::from_str("Image file not found: ");
    message.append(image_path);
    message
}

/// Puts the form together. `reference` is the path of the reference image
/// and its contents as they are to be sent, where there is one. An image of
/// a kind that is not taken is refused.
pub fn build_form(
    model: String,
    prompt: String,
    size: Option<String>,
    seconds: Option<String>,
    reference: Option<(&str, Vec<u8>)>,
) -> (r: Result<VideoForm, String>)
    ensures
        reference matches Some((path, _)) && reference_mime_type(path@) is None ==> r is Err
            && r->Err_0@ == "Unsupported image format. Use JPEG, PNG, or WebP."@,
        reference is None || reference_mime_type(reference->Some_0.0@) is Some ==> r is Ok && {
            let form = r->Ok_0;
            &&& header_views(form.fields@) == form_fields(
                model@,
                prompt@,
                match size {
                    Some(s) => Some(s@),
                    None => None,
                },
                match seconds {
                    Some(s) => Some(s@),
                    None => None,
                },
            )
            &&& match reference {
                None => form.input_reference is None,
                Some((path, bytes)) => form.input_reference is Some && {
                    let file = form.input_reference->Some_0;
                    &&& file.file_name@ == reference_file_name(path@)
                    &&& Some(file.mime_type@) == reference_mime_type(path@)
                    &&& file.bytes == bytes
                },
            }
        },
{
    let mut fields: Vec<(String, String)> = Vec::new();
    fields.push((String::from_str("model"), model));
    fields.push((String::from_str("prompt"), prompt));
    match size {
        Some(s) => {
            fields.push((String::from_str("size"), s));
        },
        None => {},
    }
    match seconds {
        Some(s) => {
            fields.push((String::from_str("seconds"), s));
        },
        None => {},
    }
    assert(header_views(fields@) =~= form_fields(
        model@,
        prompt@,
        match size {
            Some(s) => Some(s@),
            None => None,
        },
        match seconds {
            Some(s) => Some(s@),
            None => None,
        },
    ));
    let input_reference = match reference {
        None => None,
        Some((path, bytes)) => {
            let chars = to_chars(path);
            let n = chars.len();
            let start = find_after_last(&chars, '/', 0, n);
            let dot = find_after_last(&chars, '.', start, n);
            proof {
                reveal_strlit("..");
                assert(chars@.subrange(0, n as int) =~= chars@);
                let name = file_name_of(path@);
                assert(name =~= chars@.subrange(start as int, n as int));
                assert(name.skip(dot - start) =~= chars@.subrange(dot as int, n as int));
                if name.len() == 2 && name[0] == '.' && name[1] == '.' {
                    assert(name =~= ".."@);
                }
            }
            let dots = n - start == 2 && chars[start] == '.' && chars[start + 1] == '.';
            if dot - start <= 1 || dots {
                return Err(String::from_str("Unsupported image format. Use JPEG, PNG, or WebP."));
            }
            let ext = path.substring_char(dot, n);
            let mime_type = if same_text(ext, "jpg") || same_text(ext, "jpeg") {
                "image/jpeg"
            } else if same_text(ext, "png") {
                "image/png"
            } else if same_text(ext, "webp") {
                "image/webp"
            } else {
                return Err(String::from_str("Unsupported image format. Use JPEG, PNG, or WebP."));
            };
            let file_name = if n - start == 0 {
                String::from_str("image")
            } else {
                String::from_str(path.substring_char(start, n))
            };
            Some(FormFile { file_name, mime_type: String::from_str(mime_type), bytes })
        },
    };
    Ok(VideoForm { fields, input_reference })
}

} // verus!
