use vstd::prelude::*;
use vstd::string::StringExecFns;

verus! {

/// System instruction sent with a request for a shell command.
pub const COMMAND_INSTRUCTION: &'static str =
    "You are a seasoned command line expert. When responding to user queries, provide only the exact CLI command(s) needed. Your response must be concise, accurate, and directly executable, without any additional commentary or explanation. Only answer queries related to coding, programming, and terminal usage.";

/// System instruction sent with a request for documentation.
pub const DOCUMENTATION_INSTRUCTION: &'static str =
    "You are an expert in technical documentation for coding and programming. When responding, provide detailed and precise documentation, including at least one concrete example, code snippet, or usage demonstration. Your response should be clear, factual, and reflect official documentation standards. Only answer questions related to coding and programming.";

/// Endpoint that answers with one complete response; the key follows it.
pub const GENERATE_ENDPOINT: &'static str =
    "https://generativelanguage.googleapis.com/v1beta/models/gemini-1.5-flash:generateContent?key=";

/// Endpoint that answers with a stream of events; the key follows it.
pub const STREAM_ENDPOINT: &'static str =
    "https://generativelanguage.googleapis.com/v1beta/models/gemini-1.5-flash:streamGenerateContent?alt=sse&key=";

/// Text shown when a response holds no candidate or its first candidate
/// holds no part.
pub const NO_RESPONSE: &'static str = "No response received";

/// One text fragment of a request.
#[derive(Clone, Debug, PartialEq, Eq)]
pub struct Part {
    pub text: String,
}

/// One content block of a request.
#[derive(Clone, Debug, PartialEq, Eq)]
pub struct Content {
    pub parts: Vec<Part>,
}

/// The system instruction of a request.
#[derive(Clone, Debug, PartialEq, Eq)]
pub struct Instruction {
    pub parts: Vec<Part>,
}

/// The request envelope.
#[derive(Clone, Debug, PartialEq, Eq)]
pub struct GeminiRequest {
    pub system_instruction: Option<Instruction>,
    pub contents: Vec<Content>,
}

/// One text fragment of a response.
#[derive(Clone, Debug, PartialEq, Eq)]
pub struct ResponsePart {
    pub text: String,
}

/// The content of one candidate.
#[derive(Clone, Debug, PartialEq, Eq)]
pub struct ContentResponse {
    pub parts: Vec<ResponsePart>,
}

/// One generated alternative.
#[derive(Clone, Debug, PartialEq, Eq)]
pub struct Candidate {
    pub content: ContentResponse,
}

/// The response envelope.
#[derive(Clone, Debug, PartialEq, Eq)]
pub struct GeminiResponse {
    pub candidates: Vec<Candidate>,
}

/// A request as mathematics: each block is the sequence of its parts'
/// texts.
pub struct RequestView {
    pub system_instruction: Option<Seq<Seq<char>>>,
    pub contents: Seq<Seq<Seq<char>>>,
}

impl View for Part {
    type V = Seq<char>;

    open spec fn view(&self) -> Seq<char> {
        self.text@
    }
}

impl View for Content {
    type V = Seq<Seq<char>>;

    open spec fn view(&self) -> Seq<Seq<char>> {
        self.parts@.map_values(|p: Part| p@)
    }
}

impl View for Instruction {
    type V = Seq<Seq<char>>;

    open spec fn view(&self) -> Seq<Seq<char>> {
        self.parts@.map_values(|p: Part| p@)
    }
}

impl View for GeminiRequest {
    type V = RequestView;

    open spec fn view(&self) -> RequestView {
        RequestView {
            system_instruction: match self.system_instruction {
                Some(instruction) => Some(instruction@),
                None => None,
            },
            contents: self.contents@.map_values(|c: Content| c@),
        }
    }
}

impl View for ResponsePart {
    type V = Seq<char>;

    open spec fn view(&self) -> Seq<char> {
        self.text@
    }
}

impl View for ContentResponse {
    type V = Seq<Seq<char>>;

    open spec fn view(&self) -> Seq<Seq<char>> {
        self.parts@.map_values(|p: ResponsePart| p@)
    }
}

impl View for Candidate {
    type V = Seq<Seq<char>>;

    open spec fn view(&self) -> Seq<Seq<char>> {
        self.content@
    }
}

/// A response is the sequence of its candidates; a candidate is the
/// sequence of its parts' texts.
impl View for GeminiResponse {
    type V = Seq<Seq<Seq<char>>>;

    open spec fn view(&self) -> Seq<Seq<Seq<char>>> {
        self.candidates@.map_values(|c: Candidate| c@)
    }
}

/// What a request is made for.
#[derive(Clone, Copy, Debug, PartialEq, Eq)]
pub enum Intent {
    Command,
    Documentation,
}

impl Intent {
    /// The system instruction that goes with this intent.
    pub open spec fn instruction(self) -> Seq<char> {
        match self {
            Intent::Command => COMMAND_INSTRUCTION@,
            Intent::Documentation => DOCUMENTATION_INSTRUCTION@,
        }
    }

    /// The system instruction that goes with this intent.
    pub fn instruction_text(self) -> (text: &'static str)
        ensures
            text@ == self.instruction(),
    {
        match self {
            Intent::Command => COMMAND_INSTRUCTION,
            Intent::Documentation => DOCUMENTATION_INSTRUCTION,
        }
    }
}

/// The request that carries `prompt` as its only part, under `instruction`
/// when there is one.
pub open spec fn request_of(instruction: Option<Seq<char>>, prompt: Seq<char>) -> RequestView {
    RequestView {
        system_instruction: match instruction {
            Some(text) => Some(seq![text]),
            None => None,
        },
        contents: seq![seq![prompt]],
    }
}

/// The URL of the endpoint for one mode, with the key appended.
pub open spec fn url_of(api_key: Seq<char>, streaming: bool) -> Seq<char> {
    if streaming {
        STREAM_ENDPOINT@ + api_key
    } else {
        GENERATE_ENDPOINT@ + api_key
    }
}

/// The text of the first part of the first candidate, where both exist.
pub open spec fn first_part(response: Seq<Seq<Seq<char>>>) -> Option<Seq<char>> {
    if response.len() > 0 && response[0].len() > 0 {
        Some(response[0][0])
    } else {
        None
    }
}

/// The text to show for a response: its first part, or `NO_RESPONSE`.
pub open spec fn shown_text(response: Seq<Seq<Seq<char>>>) -> Seq<char> {
    match first_part(response) {
        Some(text) => text,
        None => NO_RESPONSE@,
    }
}

/// Returns the appropriate URL depending on whether streaming is enabled.
pub fn get_url(api_key: &str, streaming: bool) -> (url: String)
    ensures
        url@ == url_of(api_key@, streaming),
{
    if streaming {
        String::from_str(STREAM_ENDPOINT).concat(api_key)
    } else {
        String::from_str(GENERATE_ENDPOINT).concat(api_key)
    }
}

/// Builds a request with `prompt`, unchanged, as the single part of its
/// single content block, and `instruction` as system instruction.
pub fn build_request(prompt: &str, instruction: Option<&str>) -> (request: GeminiRequest)
    ensures
        request@ == request_of(
            match instruction {
                Some(text) => Some(text@),
                None => None,
            },
            prompt@,
        ),
{
    let system_instruction = match instruction {
        Some(text) => {
            let instruction = Instruction { parts: vec![Part { text: String::from_str(text) }] };
            assert(instruction@ =~= seq![text@]);
            Some(instruction)
        },
        None => None,
    };
    let content = Content { parts: vec![Part { text: String::from_str(prompt) }] };
    assert(content@ =~= seq![prompt@]);
    let request = GeminiRequest { system_instruction, contents: vec![content] };
    assert(request@.contents =~= seq![seq![prompt@]]);
    request
}

/// Builds the request for `prompt` under the instruction of `intent`.
pub fn build(prompt: &str, intent: Intent) -> (request: GeminiRequest)
    ensures
        request@ == request_of(Some(intent.instruction()), prompt@),
{
    build_request(prompt, Some(intent.instruction_text()))
}

/// Builds the request payload for generating commands.
pub fn build_command_request(prompt: &str) -> (request: GeminiRequest)
    ensures
        request@ == request_of(Some(COMMAND_INSTRUCTION@), prompt@),
{
    build(prompt, Intent::Command)
}

/// Builds the request payload for generating documentation.
pub fn build_documentation_request(prompt: &str) -> (request: GeminiRequest)
    ensures
        request@ == request_of(Some(DOCUMENTATION_INSTRUCTION@), prompt@),
{
    build(prompt, Intent::Documentation)
}

impl GeminiResponse {
    /// The text of the first part of the first candidate, where both exist.
    pub fn first_text(&self) -> (r: Option<String>)
        ensures
            match r {
                Some(text) => first_part(self@) == Some(text@),
                None => first_part(self@) is None,
            },
    {
        if self.candidates.len() > 0 && self.candidates[0].content.parts.len() > 0 {
            Some(self.candidates[0].content.parts[0].text.clone())
        } else {
            None
        }
    }
}

/// The text to show for a complete response.
pub fn response_text(response: &GeminiResponse) -> (text: String)
    ensures
        text@ == shown_text(response@),
{
    match response.first_text() {
        Some(text) => text,
        None => String::from_str(NO_RESPONSE),
    }
}

} // verus!
