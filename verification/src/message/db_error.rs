use vstd::prelude::*;
use crate::api::error_code::{self, get_state, state_of};
use crate::h2_rust_common::properties::Properties;
use crate::util::chars::{chars_of, chars_replace, replace_all, string_of, str_concat, to_owned_string};
use crate::util::numfmt::{decimal_of, i32_to_decimal, radix_chars};

verus! {

/// An error of the database engine: its code, the SQL state of the code, the
/// parameters of the message and the message itself.
#[derive(Debug)]
pub struct DbError {
    /// The SQL state, derived from the error code.
    pub sql_state: String,
    /// The message text for the SQL state with the parameters filled in.
    pub message: String,
    /// The error code.
    pub error_code: i32,
    /// The parameters of the message.
    pub params: Vec<String>,
}

/// The marker of the `i`-th parameter in a message template: `(i)`.
pub open spec fn param_marker(i: nat) -> Seq<char> {
    seq!['('] + decimal_of(i as int) + seq![')']
}

/// `template` with the markers of parameters `i` and later replaced by those
/// parameters, one parameter after the other.
pub open spec fn fill_params(template: Seq<char>, params: Seq<Seq<char>>, i: nat) -> Seq<char>
    decreases params.len() - i,
{
    if i >= params.len() {
        template
    } else {
        fill_params(replace_all(template, param_marker(i), params[i as int]), params, i + 1)
    }
}

/// The message for a SQL state: the template that `messages` holds for it with
/// the parameters filled in, or a note that there is none.
pub open spec fn message_of(
    messages: Map<Seq<char>, Seq<char>>,
    state: Seq<char>,
    params: Seq<Seq<char>>,
) -> Seq<char> {
    if messages.contains_key(state) {
        fill_params(messages[state], params, 0)
    } else {
        "Message "@ + state + " not found"@
    }
}

/// Whether `e` is the error of code `code` with the message parameters `params`,
/// its message rendered without a message catalog.
pub open spec fn is_error(e: DbError, code: i32, params: Seq<Seq<char>>) -> bool {
    &&& e.error_code == code
    &&& e.sql_state@ == state_of(code)
    &&& e.params.deep_view() == params
    &&& e.message@ == message_of(Map::empty(), state_of(code), params)
}

impl DbError {
    /// The message for `sql_state` from the catalog `messages`, with the
    /// parameter markers `(0)`, `(1)`, ... replaced by the parameters.
    pub fn translate(messages: &Properties, sql_state: &str, params: &Vec<String>) -> (m: String)
        requires
            messages.wf(),
        ensures
            m@ == message_of(messages.map(), sql_state@, params.deep_view()),
    {
        let template = match messages.get(sql_state) {
            Some(s) => s,
            None => {
                let a = str_concat("Message ", sql_state);
                return str_concat(a.as_str(), " not found");
            },
        };
        let mut message = chars_of(template.as_str());
        let mut a: usize = 0;
        proof {
            assert(message@ == template@);
        }
        while a < params.len()
            invariant
                a <= params@.len(),
                fill_params(message@, params.deep_view(), a as nat) == fill_params(
                    template@,
                    params.deep_view(),
                    0,
                ),
            decreases params@.len() - a,
        {
            let digits = radix_chars(a as u64, 10);
            let mut marker: Vec<char> = Vec::new();
            marker.push('(');
            let mut k: usize = 0;
            while k < digits.len()
                invariant
                    k <= digits@.len(),
                    marker@ == seq!['('] + digits@.subrange(0, k as int),
                decreases digits@.len() - k,
            {
                marker.push(digits[k]);
                k = k + 1;
                proof {
                    assert(marker@ =~= seq!['('] + digits@.subrange(0, k as int));
                }
            }
            marker.push(')');
            proof {
                assert(digits@.subrange(0, digits@.len() as int) =~= digits@);
                assert(marker@ =~= param_marker(a as nat));
            }
            let p = chars_of(params[a].as_str());
            message = chars_replace(message.as_slice(), marker.as_slice(), p.as_slice());
            a = a + 1;
        }
        string_of(message.as_slice())
    }

    /// The error of code `error_code` with the message parameters `params`.
    pub fn get(error_code: i32, params: Vec<String>) -> (e: DbError)
        ensures
            is_error(e, error_code, params.deep_view()),
    {
        let sql_state = get_state(error_code);
        let empty = Properties::new();
        let message = Self::translate(&empty, sql_state.as_str(), &params);
        DbError { sql_state, message, error_code, params }
    }

    /// The error of code `error_code` with the message parameters `params`,
    /// its message taken from the catalog `messages` (see `translate`).
    pub fn get_with_messages(messages: &Properties, error_code: i32, params: Vec<String>) -> (e: DbError)
        requires
            messages.wf(),
        ensures
            e.error_code == error_code,
            e.sql_state@ == state_of(error_code),
            e.params.deep_view() == params.deep_view(),
            e.message@ == message_of(messages.map(), state_of(error_code), params.deep_view()),
    {
        let sql_state = get_state(error_code);
        let message = Self::translate(messages, sql_state.as_str(), &params);
        DbError { sql_state, message, error_code, params }
    }

    /// The same error with its message taken from the catalog `messages`.
    pub fn localized(self, messages: &Properties) -> (e: DbError)
        requires
            messages.wf(),
        ensures
            e.error_code == self.error_code,
            e.sql_state == self.sql_state,
            e.params == self.params,
            e.message@ == message_of(messages.map(), self.sql_state@, self.params.deep_view()),
    {
        let message = Self::translate(messages, self.sql_state.as_str(), &self.params);
        DbError { sql_state: self.sql_state, message, error_code: self.error_code, params: self.params }
    }

    /// The general error with the message parameter `s`.
    pub fn get_internal_error(s: &str) -> (e: DbError)
        ensures
            is_error(e, error_code::GENERAL_ERROR_1, seq![s@]),
    {
        let mut params: Vec<String> = Vec::new();
        params.push(to_owned_string(s));
        proof {
            assert(params.deep_view() =~= seq![s@]);
        }
        Self::get(error_code::GENERAL_ERROR_1, params)
    }

    /// The error for a feature that is not supported, with the message parameter `s`.
    pub fn get_unsupported_exception(s: &str) -> (e: DbError)
        ensures
            is_error(e, error_code::FEATURE_NOT_SUPPORTED_1, seq![s@]),
    {
        let mut params: Vec<String> = Vec::new();
        params.push(to_owned_string(s));
        proof {
            assert(params.deep_view() =~= seq![s@]);
        }
        Self::get(error_code::FEATURE_NOT_SUPPORTED_1, params)
    }

    /// The error for the invalid value `value` of the parameter `param`.
    pub fn get_invalid_value_exception(param: &str, value: &str) -> (e: DbError)
        ensures
            is_error(e, error_code::INVALID_VALUE_2, seq![value@, param@]),
    {
        let mut params: Vec<String> = Vec::new();
        params.push(to_owned_string(value));
        params.push(to_owned_string(param));
        proof {
            assert(params.deep_view() =~= seq![value@, param@]);
        }
        Self::get(error_code::INVALID_VALUE_2, params)
    }

    /// The error as text: `message:<message>,sql_state:<state>,error_code:<code>`.
    pub fn to_display_string(&self) -> (s: String)
        ensures
            s@ == "message:"@ + self.message@ + ",sql_state:"@ + self.sql_state@ + ",error_code:"@
                + decimal_of(self.error_code as int),
    {
        let a = str_concat("message:", self.message.as_str());
        let b = str_concat(a.as_str(), ",sql_state:");
        let c = str_concat(b.as_str(), self.sql_state.as_str());
        let d = str_concat(c.as_str(), ",error_code:");
        let code = i32_to_decimal(self.error_code);
        str_concat(d.as_str(), code.as_str())
    }
}

/// A single message parameter.
pub fn one_param(s: &str) -> (v: Vec<String>)
    ensures
        v.deep_view() == seq![s@],
{
    let mut params: Vec<String> = Vec::new();
    params.push(to_owned_string(s));
    proof {
        assert(params.deep_view() =~= seq![s@]);
    }
    params
}

/// Two message parameters.
pub fn two_params(a: &str, b: &str) -> (v: Vec<String>)
    ensures
        v.deep_view() == seq![a@, b@],
{
    let mut params: Vec<String> = Vec::new();
    params.push(to_owned_string(a));
    params.push(to_owned_string(b));
    proof {
        assert(params.deep_view() =~= seq![a@, b@]);
    }
    params
}

} // verus!
