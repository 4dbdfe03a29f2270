//! Data model of the chat API: tool calls, tool results and conversation
//! messages as they appear in conversation history, together with the
//! spec-level views that the contracts speak of.

use vstd::prelude::*;

use crate::json::Json;

verus! {

/// Tool call recorded in a conversation message.
pub struct ToolCall {
    pub name: String,
    /// Arguments passed to the tool, kept as the JSON tree they arrived as.
    pub arguments: Json,
}

/// Spec view of a `ToolCall`.
pub ghost struct ToolCallView {
    pub name: Seq<char>,
    pub arguments: Json,
}

impl DeepView for ToolCall {
    type V = ToolCallView;

    open spec fn deep_view(&self) -> ToolCallView {
        ToolCallView { name: self.name@, arguments: self.arguments }
    }
}

/// Tool result recorded in a conversation message.
pub struct ToolResult {
    pub success: bool,
    pub content: String,
    pub error: Option<String>,
}

/// Spec view of a `ToolResult`.
pub ghost struct ToolResultView {
    pub success: bool,
    pub content: Seq<char>,
    pub error: Option<Seq<char>>,
}

impl DeepView for ToolResult {
    type V = ToolResultView;

    open spec fn deep_view(&self) -> ToolResultView {
        ToolResultView {
            success: self.success,
            content: self.content@,
            error: self.error.deep_view(),
        }
    }
}

/// One message of a conversation history.
pub struct ConversationMessage {
    pub role: String,
    pub content: String,
    pub timestamp: Option<u64>,
    pub tool_calls: Option<Vec<ToolCall>>,
    pub tool_results: Option<Vec<ToolResult>>,
}

/// Spec view of a `ConversationMessage`.
pub ghost struct ConversationMessageView {
    pub role: Seq<char>,
    pub content: Seq<char>,
    pub timestamp: Option<u64>,
    pub tool_calls: Option<Seq<ToolCallView>>,
    pub tool_results: Option<Seq<ToolResultView>>,
}

impl DeepView for ConversationMessage {
    type V = ConversationMessageView;

    open spec fn deep_view(&self) -> ConversationMessageView {
        ConversationMessageView {
            role: self.role@,
            content: self.content@,
            timestamp: self.timestamp,
            tool_calls: self.tool_calls.deep_view(),
            tool_results: self.tool_results.deep_view(),
        }
    }
}

/// The hexadecimal digit for a value below sixteen.
pub open spec fn spec_hex_digit(d: nat) -> char {
    if d == 0 {
        '0'
    } else if d == 1 {
        '1'
    } else if d == 2 {
        '2'
    } else if d == 3 {
        '3'
    } else if d == 4 {
        '4'
    } else if d == 5 {
        '5'
    } else if d == 6 {
        '6'
    } else if d == 7 {
        '7'
    } else if d == 8 {
        '8'
    } else if d == 9 {
        '9'
    } else if d == 10 {
        'a'
    } else if d == 11 {
        'b'
    } else if d == 12 {
        'c'
    } else if d == 13 {
        'd'
    } else if d == 14 {
        'e'
    } else {
        'f'
    }
}

/// How one character is written inside a JSON string literal: quotes and
/// backslashes are escaped, the common control characters get their short
/// escapes, other control characters the four-digit form, and everything
/// else stands as itself.
pub open spec fn spec_escape_char(c: char) -> Seq<char> {
    if c == '"' {
        seq!['\\', '"']
    } else if c == '\\' {
        seq!['\\', '\\']
    } else if c == '\n' {
        seq!['\\', 'n']
    } else if c == '\r' {
        seq!['\\', 'r']
    } else if c == '\t' {
        seq!['\\', 't']
    } else if (c as u32) < 32 {
        seq!['\\', 'u', '0', '0', spec_hex_digit((c as u32 / 16) as nat), spec_hex_digit(
            (c as u32 % 16) as nat,
        )]
    } else {
        seq![c]
    }
}

/// A text written as the body of a JSON string literal.
pub open spec fn spec_escape(s: Seq<char>) -> Seq<char>
    decreases s.len(),
{
    if s.len() == 0 {
        Seq::empty()
    } else {
        spec_escape_char(s[0]) + spec_escape(s.drop_first())
    }
}

/// Relies on `String::from(char)`: the returned string holds exactly the
/// given character.
#[verifier::external_body]
fn char_to_string(c: char) -> (r: String)
    ensures
        r@ == seq![c],
{
    String::from(c)
}

/// The hexadecimal digit for a value below sixteen; see `spec_hex_digit`.
fn hex_digit_str(d: u32) -> (r: &'static str)
    requires
        d < 16,
    ensures
        r@ == seq![spec_hex_digit(d as nat)],
{
    let r: &'static str = if d == 0 {
        "0"
    } else if d == 1 {
        "1"
    } else if d == 2 {
        "2"
    } else if d == 3 {
        "3"
    } else if d == 4 {
        "4"
    } else if d == 5 {
        "5"
    } else if d == 6 {
        "6"
    } else if d == 7 {
        "7"
    } else if d == 8 {
        "8"
    } else if d == 9 {
        "9"
    } else if d == 10 {
        "a"
    } else if d == 11 {
        "b"
    } else if d == 12 {
        "c"
    } else if d == 13 {
        "d"
    } else if d == 14 {
        "e"
    } else {
        "f"
    };
    proof {
        reveal_strlit("0");
        reveal_strlit("1");
        reveal_strlit("2");
        reveal_strlit("3");
        reveal_strlit("4");
        reveal_strlit("5");
        reveal_strlit("6");
        reveal_strlit("7");
        reveal_strlit("8");
        reveal_strlit("9");
        reveal_strlit("a");
        reveal_strlit("b");
        reveal_strlit("c");
        reveal_strlit("d");
        reveal_strlit("e");
        reveal_strlit("f");
        assert(r@ =~= seq![spec_hex_digit(d as nat)]);
    }
    r
}

/// Writes a text as the body of a JSON string literal; see `spec_escape`.
pub fn escape_json_string(s: &str) -> (r: String)
    ensures
        r@ == spec_escape(s@),
{
    let n = s.unicode_len();
    let mut out = String::new();
    let mut i: usize = 0;
    proof {
        assert(s@.skip(0) =~= s@);
        assert(out@ + spec_escape(s@) =~= spec_escape(s@));
    }
    while i < n
        invariant
            i <= n,
            n == s@.len(),
            spec_escape(s@) == out@ + spec_escape(s@.skip(i as int)),
        decreases n - i,
    {
        let ghost out0 = out@;
        let c = s.get_char(i);
        if c == '"' {
            out.append("\\\"");
            proof {
                reveal_strlit("\\\"");
                assert(out@ =~= out0 + spec_escape_char(c));
            }
        } else if c == '\\' {
            out.append("\\\\");
            proof {
                reveal_strlit("\\\\");
                assert(out@ =~= out0 + spec_escape_char(c));
            }
        } else if c == '\n' {
            out.append("\\n");
            proof {
                reveal_strlit("\\n");
                assert(out@ =~= out0 + spec_escape_char(c));
            }
        } else if c == '\r' {
            out.append("\\r");
            proof {
                reveal_strlit("\\r");
                assert(out@ =~= out0 + spec_escape_char(c));
            }
        } else if c == '\t' {
            out.append("\\t");
            proof {
                reveal_strlit("\\t");
                assert(out@ =~= out0 + spec_escape_char(c));
            }
        } else if (c as u32) < 32 {
            out.append("\\u00");
            let hi = hex_digit_str(c as u32 / 16);
            out.append(hi);
            let lo = hex_digit_str(c as u32 % 16);
            out.append(lo);
            proof {
                reveal_strlit("\\u00");
                assert(out@ =~= out0 + spec_escape_char(c));
            }
        } else {
            let piece = char_to_string(c);
            out.append(piece.as_str());
            proof {
                assert(out@ =~= out0 + spec_escape_char(c));
            }
        }
        i = i + 1;
        proof {
            assert(s@.skip(i - 1)[0] == s@[i - 1]);
            assert(s@.skip(i - 1).drop_first() =~= s@.skip(i as int));
            assert((out0 + spec_escape_char(s@[i - 1])) + spec_escape(s@.skip(i as int)) =~= out0
                + (spec_escape_char(s@[i - 1]) + spec_escape(s@.skip(i as int))));
        }
    }
    proof {
        assert(s@.skip(n as int) =~= Seq::<char>::empty());
        assert(out@ + Seq::<char>::empty() =~= out@);
    }
    out
}

/// The outbound chat request body: the fixed model name, one user message
/// with the given text, the conversation identifier where the turn continues
/// an existing conversation, and the flag that asks for a streamed response.
pub open spec fn spec_chat_request(message: Seq<char>, conversation_id: Option<Seq<char>>) -> Seq<
    char,
> {
    "{\"model\":\"gpt-4o\",\"messages\":[{\"role\":\"user\",\"content\":\""@ + spec_escape(message)
        + "\"}]"@ + (match conversation_id {
        Some(cid) => ",\"conversationId\":\""@ + spec_escape(cid) + "\""@,
        None => Seq::empty(),
    }) + ",\"stream\":true}"@
}

/// Builds the outbound chat request body; see `spec_chat_request`.
pub fn build_chat_request(message: &str, conversation_id: Option<&str>) -> (r: String)
    ensures
        r@ == spec_chat_request(
            message@,
            match conversation_id {
                Some(c) => Some(c@),
                None => None,
            },
        ),
{
    let mut out = String::new();
    out.append("{\"model\":\"gpt-4o\",\"messages\":[{\"role\":\"user\",\"content\":\"");
    let escaped = escape_json_string(message);
    out.append(escaped.as_str());
    out.append("\"}]");
    match conversation_id {
        Some(cid) => {
            out.append(",\"conversationId\":\"");
            let escaped_id = escape_json_string(cid);
            out.append(escaped_id.as_str());
            out.append("\"");
        },
        None => {},
    }
    out.append(",\"stream\":true}");
    proof {
        assert(out@ =~= spec_chat_request(
            message@,
            match conversation_id {
                Some(c) => Some(c@),
                None => None,
            },
        ));
    }
    out
}

} // verus!
