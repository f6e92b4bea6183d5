use vstd::prelude::*;
use vstd::utf8::valid_utf8;
use crate::codec::{base64_standard_decoded, decode_base64, utf8_error_message, utf8_failure};
use crate::error::{ObtError, Status};
use crate::response::{ContentType, Response};
use crate::text::{append_bytes, matches_at, starts_with};

verus! {

/// A named value to put into a fixture: a path parameter, or a generated number.
#[derive(Debug)]
pub struct Param {
    pub name: Vec<u8>,
    pub value: Vec<u8>,
}

impl View for Param {
    type V = (Seq<u8>, Seq<u8>);

    open spec fn view(&self) -> (Seq<u8>, Seq<u8>) {
        (self.name@, self.value@)
    }
}

/// The names and values of `params`, in order.
pub open spec fn params_view(params: Seq<Param>) -> Seq<(Seq<u8>, Seq<u8>)> {
    params.map_values(|p: Param| p@)
}

/// The placeholder that stands for `name` in a fixture: the name in braces.
pub open spec fn token(name: Seq<u8>) -> Seq<u8> {
    seq![0x7bu8] + name + seq![0x7du8]
}

/// The parameter whose placeholder stands at the start of `text`: the index
/// of the first such parameter in the order of `params`, or the number of
/// parameters where no placeholder stands there.
pub open spec fn placeholder_at(text: Seq<u8>, params: Seq<(Seq<u8>, Seq<u8>)>) -> int
    decreases params.len(),
{
    if params.len() == 0 || starts_with(text, token(params[0].0)) {
        0
    } else {
        1 + placeholder_at(text, params.skip(1))
    }
}

/// `text` after one pass from the left: where the placeholder of a parameter
/// stands, the parameter's value stands in its place, and every other byte
/// stays. A value is put in as it is: what was put in is not read again, so
/// a placeholder inside a value stays a placeholder.
pub open spec fn substituted(text: Seq<u8>, params: Seq<(Seq<u8>, Seq<u8>)>) -> Seq<u8>
    decreases text.len(),
    via substituted_decreases
{
    if text.len() == 0 {
        text
    } else {
        let k = placeholder_at(text, params);
        if k < params.len() {
            params[k].1 + substituted(text.skip(token(params[k].0).len() as int), params)
        } else {
            seq![text[0]] + substituted(text.skip(1), params)
        }
    }
}

#[via_fn]
proof fn substituted_decreases(text: Seq<u8>, params: Seq<(Seq<u8>, Seq<u8>)>) {
    if text.len() > 0 {
        lemma_placeholder_at_is_first(text, params);
    }
}

/// `placeholder_at` lies among the parameters or behind them; no parameter
/// before it has its placeholder at the start of `text`, and where it lies
/// among them, that parameter has.
pub proof fn lemma_placeholder_at_is_first(text: Seq<u8>, params: Seq<(Seq<u8>, Seq<u8>)>)
    ensures
        0 <= placeholder_at(text, params) <= params.len(),
        forall|j: int|
            0 <= j < placeholder_at(text, params) ==> !starts_with(text, token(#[trigger] params[j].0)),
        placeholder_at(text, params) < params.len() ==> starts_with(
            text,
            token(params[placeholder_at(text, params)].0),
        ),
    decreases params.len(),
{
    if params.len() > 0 && !starts_with(text, token(params[0].0)) {
        let rest = params.skip(1);
        lemma_placeholder_at_is_first(text, rest);
        assert forall|j: int| 0 <= j < placeholder_at(text, params) implies !starts_with(
            text,
            token(#[trigger] params[j].0),
        ) by {
            if j > 0 {
                assert(rest[j - 1] == params[j]);
            }
        }
        assert(placeholder_at(text, rest) < rest.len() ==> rest[placeholder_at(text, rest)]
            == params[placeholder_at(text, params)]);
    }
}

/// The first parameter whose placeholder stands at the start of `text` is
/// the one that `placeholder_at` names.
pub proof fn lemma_placeholder_at(text: Seq<u8>, params: Seq<(Seq<u8>, Seq<u8>)>, k: int)
    requires
        0 <= k <= params.len(),
        forall|j: int| 0 <= j < k ==> !starts_with(text, token(#[trigger] params[j].0)),
        k < params.len() ==> starts_with(text, token(params[k].0)),
    ensures
        placeholder_at(text, params) == k,
    decreases params.len(),
{
    if params.len() > 0 && !starts_with(text, token(params[0].0)) {
        let rest = params.skip(1);
        assert forall|j: int| 0 <= j < k - 1 implies !starts_with(
            text,
            token(#[trigger] rest[j].0),
        ) by {
            assert(rest[j] == params[j + 1]);
        }
        lemma_placeholder_at(text, rest, k - 1);
    } else if params.len() > 0 {
        assert(k == 0) by {
            if k > 0 {
                assert(!starts_with(text, token(params[0].0)));
            }
        }
    }
}

/// The decimal digits of `n`, most significant first, without leading zeros.
pub open spec fn decimal(n: nat) -> Seq<u8>
    decreases n,
{
    if n < 10 {
        seq![(0x30 + n) as u8]
    } else {
        decimal(n / 10).push((0x30 + n % 10) as u8)
    }
}

/// The number that a string of decimal digits stands for.
pub open spec fn decimal_value(digits: Seq<u8>) -> nat
    decreases digits.len(),
{
    if digits.len() == 0 {
        0
    } else {
        decimal_value(digits.drop_last()) * 10 + (digits.last() - 0x30) as nat
    }
}

/// Whether `b` is one of the digits `0` to `9`.
pub open spec fn is_digit(b: u8) -> bool {
    0x30 <= b <= 0x39
}

/// What a fixture is answered with: the media type and body, or the status
/// and description of the failure. `decoded` is what base64 decoding made of
/// `contents`, `text_failure` the complaint about `contents` as UTF-8 text.
pub open spec fn rendering(
    contents: Seq<u8>,
    params: Seq<(Seq<u8>, Seq<u8>)>,
    decoded: Option<Seq<u8>>,
    text_failure: Option<Seq<char>>,
) -> Result<(ContentType, Seq<u8>), (Status, Seq<char>)> {
    match decoded {
        Some(bytes) => Ok((ContentType::MsgPack, bytes)),
        None => match text_failure {
            None => Ok((ContentType::Json, substituted(contents, params))),
            Some(message) => Err((Status::InternalServerError, message)),
        },
    }
}

/// Whether `r` is the answer that `outcome` describes; a successful answer has status 200.
pub open spec fn answers(
    r: Result<Response, ObtError>,
    outcome: Result<(ContentType, Seq<u8>), (Status, Seq<char>)>,
) -> bool {
    match outcome {
        Ok((content_type, body)) => r is Ok && r->Ok_0.status == 200 && r->Ok_0.content_type
            == content_type && r->Ok_0.body@ == body,
        Err((status, message)) => r is Err && r->Err_0.status() == status
            && r->Err_0.description() == message,
    }
}

/// The placeholder for `name`.
pub fn placeholder(name: &[u8]) -> (r: Vec<u8>)
    ensures
        r@ == token(name@),
{
    let mut out: Vec<u8> = Vec::new();
    out.push(0x7bu8);
    append_bytes(&mut out, name);
    out.push(0x7du8);
    out
}

/// `text` with the value of a parameter in the place of each of its
/// placeholders, in one pass: the values are put in as they are.
pub fn substitute(text: &[u8], params: &Vec<Param>) -> (r: Vec<u8>)
    ensures
        r@ == substituted(text@, params_view(params@)),
{
    let ghost all = params_view(params@);
    let mut tokens: Vec<Vec<u8>> = Vec::new();
    let mut n: usize = 0;
    while n < params.len()
        invariant
            n <= params.len(),
            all == params_view(params@),
            tokens@.len() == n,
            forall|j: int| 0 <= j < n ==> (#[trigger] tokens@[j])@ == token(all[j].0),
        decreases params.len() - n,
    {
        let one = placeholder(params[n].name.as_slice());
        assert(all[n as int] == params@[n as int]@);
        tokens.push(one);
        n += 1;
    }
    let mut out: Vec<u8> = Vec::new();
    let mut i: usize = 0;
    assert(text@.skip(0) == text@);
    while i < text.len()
        invariant
            i <= text.len(),
            all == params_view(params@),
            tokens@.len() == params.len(),
            forall|j: int| 0 <= j < params.len() ==> (#[trigger] tokens@[j])@ == token(all[j].0),
            substituted(text@, all) == out@ + substituted(text@.skip(i as int), all),
        decreases text.len() - i,
    {
        let ghost rest = text@.skip(i as int);
        let mut k: usize = 0;
        let mut found = false;
        while k < params.len() && !found
            invariant
                k <= params.len(),
                i < text.len(),
                rest == text@.skip(i as int),
                all == params_view(params@),
                tokens@.len() == params.len(),
                forall|j: int|
                    0 <= j < params.len() ==> (#[trigger] tokens@[j])@ == token(all[j].0),
                forall|j: int| 0 <= j < k ==> !starts_with(rest, token(#[trigger] all[j].0)),
                found ==> k < params.len() && starts_with(rest, token(all[k as int].0)),
            decreases params.len() - k + if found { 0int } else { 1int },
        {
            if matches_at(text, i, tokens[k].as_slice()) {
                found = true;
            } else {
                assert(tokens@[k as int]@ == token(all[k as int].0));
                k += 1;
            }
        }
        proof {
            lemma_placeholder_at(rest, all, k as int);
        }
        if found {
            assert(all[k as int] == params@[k as int]@);
            assert(tokens@[k as int]@ == token(all[k as int].0));
            append_bytes(&mut out, params[k].value.as_slice());
            assert(rest.skip(tokens@[k as int]@.len() as int) == text@.skip(i + tokens@[k as int]@.len()));
            i += tokens[k].len();
        } else {
            out.push(text[i]);
            assert(rest.skip(1) == text@.skip(i + 1));
            assert(rest[0] == text@[i as int]);
            i += 1;
        }
    }
    assert(text@.skip(text.len() as int).len() == 0);
    out
}

/// The decimal digits of `n`.
pub fn decimal_digits(n: u32) -> (r: Vec<u8>)
    ensures
        r@ == decimal(n as nat),
    decreases n,
{
    if n < 10 {
        let mut out: Vec<u8> = Vec::new();
        out.push(0x30u8 + n as u8);
        out
    } else {
        let mut out = decimal_digits(n / 10);
        out.push(0x30u8 + (n % 10) as u8);
        out
    }
}

/// Answers a fixture, given what base64 decoding and the UTF-8 check made of
/// its contents: decoded bytes are served as MessagePack; otherwise valid
/// text is served as JSON after substitution; otherwise the request fails.
pub fn render_with(
    contents: &[u8],
    params: &Vec<Param>,
    decoded: Option<Vec<u8>>,
    text_failure: Option<String>,
) -> (r: Result<Response, ObtError>)
    ensures
        answers(
            r,
            rendering(
                contents@,
                params_view(params@),
                match decoded {
                    Some(bytes) => Some(bytes@),
                    None => None,
                },
                match text_failure {
                    Some(message) => Some(message@),
                    None => None,
                },
            ),
        ),
{
    match decoded {
        Some(bytes) => Ok(Response::ok(ContentType::MsgPack, bytes)),
        None => match text_failure {
            None => Ok(Response::ok(ContentType::Json, substitute(contents, params))),
            Some(message) => Err(ObtError::new(Status::InternalServerError, message.as_str())),
        },
    }
}

/// Answers a fixture from its contents: contents that are valid standard
/// base64 are decoded and served as MessagePack; otherwise they are served as
/// JSON text with every placeholder substituted, if they are valid UTF-8, and
/// the request fails with an internal error if they are not.
pub fn render(contents: &[u8], params: &Vec<Param>) -> (r: Result<Response, ObtError>)
    ensures
        answers(
            r,
            rendering(
                contents@,
                params_view(params@),
                base64_standard_decoded(contents@),
                if valid_utf8(contents@) {
                    None
                } else {
                    Some(utf8_error_message(contents@))
                },
            ),
        ),
        base64_standard_decoded(contents@) is Some || valid_utf8(contents@) ==> r is Ok,
{
    let decoded = decode_base64(contents);
    let text_failure = if decoded.is_none() {
        utf8_failure(contents)
    } else {
        None
    };
    render_with(contents, params, decoded, text_failure)
}

/// Ten to the power `k`.
pub open spec fn pow10(k: nat) -> nat
    decreases k,
{
    if k == 0 {
        1
    } else {
        10 * pow10((k - 1) as nat)
    }
}

/// The decimal text of a number is never empty, holds digits only, has no
/// leading zero unless the number is zero, and reads back as the number.
pub proof fn lemma_decimal_reads_back(n: nat)
    ensures
        decimal(n).len() >= 1,
        forall|i: int| 0 <= i < decimal(n).len() ==> is_digit(#[trigger] decimal(n)[i]),
        n > 0 ==> decimal(n)[0] != 0x30,
        n == 0 ==> decimal(n) == seq![0x30u8],
        decimal_value(decimal(n)) == n,
    decreases n,
{
    if n < 10 {
        let d = decimal(n);
        assert(d.drop_last().len() == 0);
        assert(decimal_value(d.drop_last()) == 0);
    } else {
        lemma_decimal_reads_back(n / 10);
        let head = decimal(n / 10);
        let d = decimal(n);
        assert(d.drop_last() == head);
        assert(d.last() == (0x30 + n % 10) as u8);
        assert(d[0] == head[0]);
    }
}

/// A number below ten to the `k` has at most `k` decimal digits.
pub proof fn lemma_decimal_length(n: nat, k: nat)
    requires
        k >= 1,
        n < pow10(k),
    ensures
        decimal(n).len() <= k,
    decreases k,
{
    if n >= 10 {
        assert(pow10(1) == 10) by {
            reveal_with_fuel(pow10, 2);
        }
        assert(k >= 2);
        lemma_decimal_length(n / 10, (k - 1) as nat);
    }
}

/// The text that stands for a generated 32-bit number is a valid unsigned
/// 32-bit decimal string: one to ten digits that read back as the number.
pub proof fn lemma_decimal_of_u32(n: u32)
    ensures
        1 <= decimal(n as nat).len() <= 10,
        forall|i: int| 0 <= i < decimal(n as nat).len() ==> is_digit(#[trigger] decimal(n as nat)[i]),
        decimal_value(decimal(n as nat)) == n,
{
    lemma_decimal_reads_back(n as nat);
    assert(pow10(10) == 10_000_000_000nat) by {
        reveal_with_fuel(pow10, 11);
    }
    lemma_decimal_length(n as nat, 10);
}

/// Different numbers have different decimal texts.
pub proof fn lemma_decimal_injective(a: nat, b: nat)
    requires
        decimal(a) == decimal(b),
    ensures
        a == b,
{
    lemma_decimal_reads_back(a);
    lemma_decimal_reads_back(b);
}

/// A request that is repeated is answered with the same bytes: two answers
/// to one outcome agree in status, media type and body, or fail alike.
pub proof fn lemma_same_request_same_answer(
    first: Result<Response, ObtError>,
    second: Result<Response, ObtError>,
    outcome: Result<(ContentType, Seq<u8>), (Status, Seq<char>)>,
)
    requires
        answers(first, outcome),
        answers(second, outcome),
    ensures
        first is Ok <==> second is Ok,
        first is Ok ==> first->Ok_0.status == second->Ok_0.status && first->Ok_0.content_type
            == second->Ok_0.content_type && first->Ok_0.body@ == second->Ok_0.body@,
        first is Err ==> first->Err_0.status() == second->Err_0.status()
            && first->Err_0.description() == second->Err_0.description(),
{
}

/// A value is put in verbatim: where the text begins with the placeholder
/// of a parameter, and with that of no parameter before it, the result
/// begins with the parameter's value, and the pass goes on behind the
/// placeholder, not inside the value.
pub proof fn lemma_value_is_put_in_verbatim(
    text: Seq<u8>,
    params: Seq<(Seq<u8>, Seq<u8>)>,
    k: int,
)
    requires
        0 <= k < params.len(),
        starts_with(text, token(params[k].0)),
        forall|j: int| 0 <= j < k ==> !starts_with(text, token(#[trigger] params[j].0)),
    ensures
        substituted(text, params) == params[k].1 + substituted(
            text.skip(token(params[k].0).len() as int),
            params,
        ),
{
    lemma_placeholder_at(text, params, k);
}

/// A text in which no placeholder of any parameter stands is left as it is.
pub proof fn lemma_text_without_placeholders_stays(text: Seq<u8>, params: Seq<(Seq<u8>, Seq<u8>)>)
    requires
        forall|i: int, j: int|
            0 <= i < text.len() && 0 <= j < params.len() ==> !starts_with(
                #[trigger] text.skip(i),
                token(#[trigger] params[j].0),
            ),
    ensures
        substituted(text, params) == text,
    decreases text.len(),
{
    if text.len() > 0 {
        assert(text.skip(0) == text);
        assert forall|j: int| 0 <= j < params.len() implies !starts_with(
            text,
            token(#[trigger] params[j].0),
        ) by {
            assert(!starts_with(text.skip(0), token(params[j].0)));
        }
        lemma_placeholder_at(text, params, params.len() as int);
        let rest = text.skip(1);
        assert forall|i: int, j: int| 0 <= i < rest.len() && 0 <= j < params.len() implies !starts_with(
            #[trigger] rest.skip(i),
            token(#[trigger] params[j].0),
        ) by {
            assert(rest.skip(i) == text.skip(i + 1));
        }
        lemma_text_without_placeholders_stays(rest, params);
        assert(seq![text[0]] + rest == text);
    }
}

} // verus!
