//! The course of one generation: what is sent to a language model, in which
//! order models and keys are tried, and what is read from the replies.
use vstd::prelude::*;

use crate::ai_client;
use crate::ai_client::{GeminiKeyError, GEMINI_MAX_ATTEMPTS, GEMINI_RETRY_DELAY_MS};
use crate::json;
use crate::json::{Json, JsonMember, JsonModel};
use crate::text;

verus! {

/// One message of a conversation.
#[derive(Debug, Clone)]
pub struct ChatMessage {
    /// "user", "model", "assistant" or "system".
    pub role: String,
    pub content: String,
}

/// The temperature of an answer: seven tenths, in single precision, as it is
/// written.
pub const DEFAULT_TEMPERATURE: &'static str = "0.699999988079071";

/// The settings of a generation. A temperature is kept as it is written.
#[derive(Debug, Clone)]
pub struct AiGenerateOptions {
    pub system_instruction: Option<String>,
    pub temperature: Option<String>,
    pub max_output_tokens: Option<i32>,
    pub image_base64: Option<String>,
    pub thinking_budget: Option<i32>,
}

pub open spec fn text_part(said: Seq<char>) -> JsonModel {
    JsonModel::Object(seq![("text"@, JsonModel::Text(said))])
}

pub open spec fn content_model(role: Seq<char>, parts: Seq<JsonModel>) -> JsonModel {
    JsonModel::Object(
        seq![("parts"@, JsonModel::Array(parts)), ("role"@, JsonModel::Text(role))],
    )
}

/// The role under which a message is sent: the assistant's own messages are
/// those of the model, all others the user's.
pub open spec fn sent_role(role: Seq<char>) -> Seq<char> {
    if role == "assistant"@ || role == "model"@ {
        "model"@
    } else {
        "user"@
    }
}

/// The data of an image: what follows the mark of the encoding, if it is there.
pub open spec fn image_data(image: Seq<char>) -> Seq<char> {
    match text::find_from(image, "base64,"@, 0) {
        Some(at) => image.skip(at + 7),
        None => image,
    }
}

pub open spec fn image_type(image: Seq<char>) -> Seq<char> {
    if text::begins_with(image, "data:image/png"@) {
        "image/png"@
    } else {
        "image/jpeg"@
    }
}

pub open spec fn image_part(image: Seq<char>) -> JsonModel {
    JsonModel::Object(
        seq![
            (
                "inline_data"@,
                JsonModel::Object(
                    seq![
                        ("data"@, JsonModel::Text(image_data(image))),
                        ("mime_type"@, JsonModel::Text(image_type(image))),
                    ],
                ),
            ),
        ],
    )
}

/// The parts of the message at `i`: its text and, in the last message, the
/// image.
pub open spec fn parts_of_message(
    messages: Seq<ChatMessage>,
    image: Option<Seq<char>>,
    i: int,
) -> Seq<JsonModel> {
    match image {
        Some(data) => if i == messages.len() - 1 {
            seq![text_part(messages[i].content@), image_part(data)]
        } else {
            seq![text_part(messages[i].content@)]
        },
        None => seq![text_part(messages[i].content@)],
    }
}

/// The contents of a request. An image goes with the last message, or alone
/// where there is none.
pub open spec fn contents_model(messages: Seq<ChatMessage>, image: Option<Seq<char>>) -> Seq<
    JsonModel,
> {
    match image {
        Some(data) if messages.len() == 0 => seq![content_model("user"@, seq![image_part(data)])],
        _ => Seq::new(
            messages.len(),
            |i: int|
                content_model(sent_role(messages[i].role@), parts_of_message(messages, image, i)),
        ),
    }
}

pub open spec fn number_model(n: i32) -> JsonModel {
    JsonModel::Number(text::signed_decimal(n as int))
}

pub open spec fn optional(
    present: bool,
    member: (Seq<char>, JsonModel),
) -> Seq<(Seq<char>, JsonModel)> {
    if present {
        seq![member]
    } else {
        Seq::empty()
    }
}

/// The settings of a request that are given.
pub open spec fn generation_config(options: AiGenerateOptions) -> Seq<(Seq<char>, JsonModel)> {
    optional(
        options.max_output_tokens is Some,
        ("maxOutputTokens"@, number_model(options.max_output_tokens->0)),
    ) + optional(
        options.temperature is Some,
        ("temperature"@, JsonModel::Number(options.temperature->0@)),
    ) + optional(
        options.thinking_budget is Some,
        (
            "thinkingConfig"@,
            JsonModel::Object(
                seq![("thinkingBudget"@, number_model(options.thinking_budget->0))],
            ),
        ),
    )
}

pub open spec fn has_instruction(options: AiGenerateOptions) -> bool {
    options.system_instruction is Some && options.system_instruction->0@.len() > 0
}

/// The body of a request.
pub open spec fn gemini_body(messages: Seq<ChatMessage>, options: AiGenerateOptions) -> JsonModel {
    JsonModel::Object(
        seq![("contents"@, JsonModel::Array(contents_model(messages, text::opt_view(options.image_base64))))]
            + optional(
            generation_config(options).len() > 0,
            ("generationConfig"@, JsonModel::Object(generation_config(options))),
        ) + optional(
            has_instruction(options),
            (
                "system_instruction"@,
                JsonModel::Object(
                    seq![
                        (
                            "parts"@,
                            JsonModel::Array(seq![text_part(options.system_instruction->0@)]),
                        ),
                    ],
                ),
            ),
        ),
    )
}

fn one_member(key: &str, value: Json) -> (res: Json)
    ensures
        res.model() == JsonModel::Object(seq![(key@, value.model())]),
{
    let mut members: Vec<JsonMember> = Vec::new();
    members.push(json::member(key, value));
    assert(json::member_models(members@) == seq![(key@, value.model())]);
    json::object(members)
}

fn one_item(item: Json) -> (res: Json)
    ensures
        res.model() == JsonModel::Array(seq![item.model()]),
{
    let mut items: Vec<Json> = Vec::new();
    items.push(item);
    assert(json::item_models(items@) == seq![item.model()]);
    json::array(items)
}

fn build_text_part(said: &str) -> (res: Json)
    ensures
        res.model() == text_part(said@),
{
    one_member("text", json::string_value(said))
}

fn build_image_part(image: &str) -> (res: Json)
    ensures
        res.model() == image_part(image@),
{
    proof {
        reveal_strlit("base64,");
    }
    let chars = text::chars_of(image);
    let total: usize = chars.len();
    let mark = text::chars_of("base64,");
    let data = match text::find_text_from(&chars, &mark, 0) {
        Some(at) => {
            let start: usize = at + 7;
            assert(image@.skip(start as int) == image@.subrange(start as int, total as int));
            text::string_of_range(&chars, start, total)
        },
        None => image.to_owned(),
    };
    let mime_type = if text::text_begins_with(image, "data:image/png") {
        "image/png"
    } else {
        "image/jpeg"
    };
    let mut members: Vec<JsonMember> = Vec::new();
    members.push(json::member("data", json::string_value(data.as_str())));
    members.push(json::member("mime_type", json::string_value(mime_type)));
    assert(json::member_models(members@) == seq![
        ("data"@, JsonModel::Text(image_data(image@))),
        ("mime_type"@, JsonModel::Text(image_type(image@))),
    ]);
    one_member("inline_data", json::object(members))
}

fn build_content(role: &str, parts: Vec<Json>) -> (res: Json)
    ensures
        res.model() == content_model(role@, json::item_models(parts@)),
{
    let ghost models = json::item_models(parts@);
    let mut members: Vec<JsonMember> = Vec::new();
    members.push(json::member("parts", json::array(parts)));
    members.push(json::member("role", json::string_value(role)));
    assert(json::member_models(members@) == seq![
        ("parts"@, JsonModel::Array(models)),
        ("role"@, JsonModel::Text(role@)),
    ]);
    json::object(members)
}

fn build_contents(messages: &Vec<ChatMessage>, image: &Option<String>) -> (res: Vec<Json>)
    ensures
        json::item_models(res@) == contents_model(messages@, text::opt_view(*image)),
{
    let ghost given = text::opt_view(*image);
    let mut contents: Vec<Json> = Vec::new();
    if messages.len() == 0 {
        if let Some(data) = image {
            let mut parts: Vec<Json> = Vec::new();
            parts.push(build_image_part(data.as_str()));
            assert(json::item_models(parts@) == seq![image_part(data@)]);
            contents.push(build_content("user", parts));
            assert(json::item_models(contents@) == contents_model(messages@, given));
        }
        assert(json::item_models(contents@) == contents_model(messages@, given));
        return contents;
    }
    let mut i: usize = 0;
    while i < messages.len()
        invariant
            i <= messages@.len(),
            messages@.len() > 0,
            given == text::opt_view(*image),
            json::item_models(contents@) == contents_model(messages@, given).take(i as int),
        decreases messages@.len() - i,
    {
        let ghost before = contents@;
        let mut parts: Vec<Json> = Vec::new();
        parts.push(build_text_part(messages[i].content.as_str()));
        if i + 1 == messages.len() {
            if let Some(data) = image {
                parts.push(build_image_part(data.as_str()));
            }
        }
        assert(json::item_models(parts@) == parts_of_message(messages@, given, i as int));
        let role = if text::same_text(messages[i].role.as_str(), "assistant") || text::same_text(
            messages[i].role.as_str(),
            "model",
        ) {
            "model"
        } else {
            "user"
        };
        let content = build_content(role, parts);
        contents.push(content);
        assert(json::item_models(contents@) == json::item_models(before).push(content.model()));
        assert(contents_model(messages@, given)[i as int] == content.model());
        i += 1;
        assert(contents_model(messages@, given).take(i as int) == contents_model(
            messages@,
            given,
        ).take(i - 1).push(contents_model(messages@, given)[i - 1]));
    }
    assert(contents_model(messages@, given).take(i as int) == contents_model(messages@, given));
    contents
}

fn build_generation_config(options: &AiGenerateOptions) -> (res: Vec<JsonMember>)
    ensures
        json::member_models(res@) == generation_config(*options),
{
    let mut members: Vec<JsonMember> = Vec::new();
    if let Some(max_tokens) = options.max_output_tokens {
        members.push(
            json::member("maxOutputTokens", Json::Number(text::signed_decimal_text(max_tokens))),
        );
    }
    if let Some(temperature) = &options.temperature {
        members.push(json::member("temperature", Json::Number(temperature.clone())));
    }
    if let Some(budget) = options.thinking_budget {
        let inner = one_member("thinkingBudget", Json::Number(text::signed_decimal_text(budget)));
        members.push(json::member("thinkingConfig", inner));
    }
    assert(json::member_models(members@) == generation_config(*options));
    members
}

/// Builds the body of a request.
pub fn gemini_request_body(messages: &Vec<ChatMessage>, options: &AiGenerateOptions) -> (res: Json)
    ensures
        res.model() == gemini_body(messages@, *options),
{
    let contents = build_contents(messages, &options.image_base64);
    let config = build_generation_config(options);
    let ghost config_model = json::member_models(config@);
    let ghost contents_given = json::item_models(contents@);
    let mut members: Vec<JsonMember> = Vec::new();
    members.push(json::member("contents", json::array(contents)));
    assert(config@.len() == config_model.len());
    if config.len() > 0 {
        members.push(json::member("generationConfig", json::object(config)));
    }
    if let Some(instruction) = &options.system_instruction {
        if !instruction.as_str().is_empty() {
            let part = build_text_part(instruction.as_str());
            members.push(
                json::member("system_instruction", one_member("parts", one_item(part))),
            );
        }
    }
    assert(json::member_models(members@) == gemini_body(messages@, *options)->Object_0);
    json::object(members)
}

/// The text that one part of an answer adds: none where it is a thought.
pub open spec fn part_text(part: JsonModel) -> Seq<char> {
    if part.bool_member("thought"@) == Some(true) || part.get("thought_signature"@) is Some {
        Seq::empty()
    } else {
        match part.text_member("text"@) {
            Some(said) => said,
            None => Seq::empty(),
        }
    }
}

/// The texts of the parts, one after the other.
pub open spec fn parts_text(parts: Seq<JsonModel>) -> Seq<char>
    decreases parts.len(),
{
    if parts.len() == 0 {
        Seq::empty()
    } else {
        parts_text(parts.drop_last()) + part_text(parts.last())
    }
}

/// The parts of the first candidate of an answer.
pub open spec fn answer_parts(answer: JsonModel) -> Seq<JsonModel> {
    match answer.get("candidates"@) {
        Some(candidates) => match candidates.at(0) {
            Some(first) => match first.get("content"@) {
                Some(content) => match content.get("parts"@) {
                    Some(JsonModel::Array(parts)) => parts,
                    _ => Seq::empty(),
                },
                None => Seq::empty(),
            },
            None => Seq::empty(),
        },
        None => Seq::empty(),
    }
}

/// What an answer says, without thoughts.
pub open spec fn answer_text(answer: JsonModel) -> Seq<char> {
    ai_client::without_thoughts(parts_text(answer_parts(answer)))
}

fn text_of_parts(parts: &Vec<Json>) -> (res: String)
    ensures
        res@ == parts_text(json::item_models(parts@)),
{
    let ghost models = json::item_models(parts@);
    let mut said = String::new();
    let mut i: usize = 0;
    while i < parts.len()
        invariant
            i <= parts@.len(),
            models == json::item_models(parts@),
            said@ == parts_text(models.take(i as int)),
        decreases parts@.len() - i,
    {
        let ghost before = said@;
        let part = &parts[i];
        let is_thought = match part.bool_member("thought") {
            Some(flag) => flag,
            None => false,
        };
        let signed = part.get("thought_signature").is_some();
        if !is_thought && !signed {
            if let Some(addition) = part.text_member("text") {
                text::append_text(&mut said, addition.as_str());
            }
        }
        assert(said@ == before + part_text(models[i as int]));
        i += 1;
        assert(models.take(i as int).drop_last() == models.take(i - 1));
        assert(models.take(i as int).last() == models[i - 1]);
    }
    assert(models.take(i as int) == models);
    said
}

/// Reads what an answer says.
pub fn read_gemini_answer(answer: &Json) -> (res: String)
    ensures
        res@ == answer_text(answer.model()),
{
    let mut said = String::new();
    assert(said@ == parts_text(Seq::empty()));
    if let Some(candidates) = answer.get("candidates") {
        if let Some(first) = candidates.at(0) {
            if let Some(content) = first.get("content") {
                if let Some(found) = content.get("parts") {
                    if let Json::Array(parts) = found {
                        said = text_of_parts(parts);
                        assert(found.model()->Array_0 == json::item_models(parts@));
                    }
                }
            }
        }
    }
    ai_client::strip_thought_artifacts(said.as_str())
}

/// The models that are tried after the chosen one.
pub open spec fn fallback_models() -> Seq<Seq<char>> {
    seq!["gemini-2.0-flash"@, "gemini-2.5-flash"@, "gemini-1.5-flash"@]
}

/// The model that is meant: the default one where none is named.
pub open spec fn chosen_model(model: Seq<char>) -> Seq<char> {
    if text::is_blank(model) {
        "gemini-3.7-flash"@
    } else {
        text::trimmed(model)
    }
}

/// The models in the order in which they are tried, each once.
pub open spec fn model_candidates(model: Seq<char>) -> Seq<Seq<char>> {
    seq![chosen_model(model)] + fallback_models().filter(
        |name: Seq<char>| name != chosen_model(model),
    )
}

proof fn lemma_fallback_models_differ()
    ensures
        "gemini-2.0-flash"@ != "gemini-2.5-flash"@,
        "gemini-2.0-flash"@ != "gemini-1.5-flash"@,
        "gemini-2.5-flash"@ != "gemini-1.5-flash"@,
{
    reveal_strlit("gemini-2.0-flash");
    reveal_strlit("gemini-2.5-flash");
    reveal_strlit("gemini-1.5-flash");
    assert("gemini-2.0-flash"@[9] == '0' && "gemini-2.5-flash"@[9] == '5');
    assert("gemini-2.0-flash"@[7] == '2' && "gemini-1.5-flash"@[7] == '1');
    assert("gemini-2.5-flash"@[7] == '2');
}

/// No model is tried twice, and the chosen one comes first.
pub proof fn law_models_are_tried_once(model: Seq<char>)
    ensures
        model_candidates(model).no_duplicates(),
        model_candidates(model)[0] == chosen_model(model),
        forall|i: int|
            0 <= i < fallback_models().len() ==> model_candidates(model).contains(
                #[trigger] fallback_models()[i],
            ),
{
    lemma_fallback_models_differ();
    lemma_candidates(model);
    let all = model_candidates(model);
    let name = chosen_model(model);
    let two = "gemini-2.0-flash"@;
    let half = "gemini-2.5-flash"@;
    let one = "gemini-1.5-flash"@;
    if name == two {
        lemma_three_distinct(all, two, half, one);
    } else if name == half {
        lemma_three_distinct(all, half, two, one);
    } else if name == one {
        lemma_three_distinct(all, one, two, half);
    } else {
        assert(all =~= seq![name, two, half, one]);
        lemma_four_distinct(all, name, two, half, one);
    }
}

proof fn lemma_three_distinct(all: Seq<Seq<char>>, a: Seq<char>, b: Seq<char>, c: Seq<char>)
    requires
        all =~= seq![a, b, c],
        a != b,
        a != c,
        b != c,
    ensures
        all.no_duplicates(),
        all[0] == a,
        all.contains(a),
        all.contains(b),
        all.contains(c),
{
    assert(all[0] == a && all[1] == b && all[2] == c);
}

proof fn lemma_four_distinct(
    all: Seq<Seq<char>>,
    a: Seq<char>,
    b: Seq<char>,
    c: Seq<char>,
    d: Seq<char>,
)
    requires
        all =~= seq![a, b, c, d],
        a != b,
        a != c,
        a != d,
        b != c,
        b != d,
        c != d,
    ensures
        all.no_duplicates(),
        all[0] == a,
        all.contains(b),
        all.contains(c),
        all.contains(d),
{
    assert(all[0] == a && all[1] == b && all[2] == c && all[3] == d);
}

proof fn lemma_candidates(model: Seq<char>)
    ensures
        ({
            let name = chosen_model(model);
            let two = "gemini-2.0-flash"@;
            let half = "gemini-2.5-flash"@;
            let one = "gemini-1.5-flash"@;
            model_candidates(model) == seq![name] + (if two != name {
                seq![two]
            } else {
                Seq::empty()
            }) + (if half != name {
                seq![half]
            } else {
                Seq::empty()
            }) + (if one != name {
                seq![one]
            } else {
                Seq::empty()
            })
        }),
{
    let name = chosen_model(model);
    let other = |n: Seq<char>| n != name;
    let all = fallback_models();
    reveal_with_fuel(Seq::filter, 4);
    assert(all.drop_last() == seq!["gemini-2.0-flash"@, "gemini-2.5-flash"@]);
    assert(all.drop_last().drop_last() == seq!["gemini-2.0-flash"@]);
    assert(all.drop_last().drop_last().drop_last() == Seq::<Seq<char>>::empty());
    assert(model_candidates(model) == seq![name] + (if "gemini-2.0-flash"@ != name {
        seq!["gemini-2.0-flash"@]
    } else {
        Seq::empty()
    }) + (if "gemini-2.5-flash"@ != name {
        seq!["gemini-2.5-flash"@]
    } else {
        Seq::empty()
    }) + (if "gemini-1.5-flash"@ != name {
        seq!["gemini-1.5-flash"@]
    } else {
        Seq::empty()
    }));
}

/// Where a generation stands: the model, the key and the attempt that come
/// next, and what went wrong last.
pub struct GenerationState {
    pub endpoint: Seq<char>,
    pub models: Seq<Seq<char>>,
    pub keys: Seq<Seq<char>>,
    pub model: int,
    pub key: int,
    pub attempt: int,
}

/// The reply to one request.
#[derive(Debug)]
pub enum GeminiReply {
    /// An answer in JSON.
    Answer(Json),
    /// An answer that is no JSON.
    Unreadable,
    /// An HTTP status that tells of a failure, with the words for it.
    Refused { status: u16, shown: String },
    /// No answer came.
    Failed(String),
}

/// What a reply says.
pub enum ReplyModel {
    Answer(JsonModel),
    Unreadable,
    Refused { status: u16, shown: Seq<char> },
    Failed(Seq<char>),
}

impl View for GeminiReply {
    type V = ReplyModel;

    open spec fn view(&self) -> ReplyModel {
        match *self {
            GeminiReply::Answer(answer) => ReplyModel::Answer(answer.model()),
            GeminiReply::Unreadable => ReplyModel::Unreadable,
            GeminiReply::Refused { status, shown } => ReplyModel::Refused { status, shown: shown@ },
            GeminiReply::Failed(error) => ReplyModel::Failed(error@),
        }
    }
}

/// Whether an HTTP status tells of a success.
pub open spec fn is_success(status: u16) -> bool {
    200 <= status < 300
}

/// What a response says, given its status, the words for it, and what its body
/// parses to; `None` where the body is no JSON or did not come.
pub open spec fn response_reply(
    status: u16,
    shown: Seq<char>,
    parsed: Option<JsonModel>,
) -> ReplyModel {
    if !is_success(status) {
        ReplyModel::Refused { status, shown }
    } else {
        match parsed {
            Some(answer) => ReplyModel::Answer(answer),
            None => ReplyModel::Unreadable,
        }
    }
}

/// What follows on a reply.
#[derive(Debug)]
pub enum GeminiStep {
    /// The generation is done, and this is the text.
    Answered(String),
    /// The generation has failed.
    GaveUp(String),
    /// The next request is to be sent after a pause in milliseconds.
    Ask(u64),
}

/// What follows on a reply.
pub enum StepModel {
    Answered(Seq<char>),
    GaveUp(Seq<char>),
    Ask(int),
}

impl View for GeminiStep {
    type V = StepModel;

    open spec fn view(&self) -> StepModel {
        match *self {
            GeminiStep::Answered(said) => StepModel::Answered(said@),
            GeminiStep::GaveUp(error) => StepModel::GaveUp(error@),
            GeminiStep::Ask(pause) => StepModel::Ask(pause as int),
        }
    }
}

impl GenerationState {
    pub open spec fn valid(self) -> bool {
        &&& 0 <= self.model < self.models.len()
        &&& 0 <= self.key < self.keys.len()
        &&& 0 <= self.attempt < GEMINI_MAX_ATTEMPTS
    }

    /// The address of the next request. It holds no key.
    pub open spec fn url(self) -> Seq<char> {
        text::without_trailing(self.endpoint, '/') + "/models/"@ + self.models[self.model]
            + ":generateContent"@
    }

    /// What is wrong with a reply; `None` where it answers.
    pub open spec fn failure(self, reply: ReplyModel) -> Option<Seq<char>> {
        let name = self.models[self.model];
        let index = text::decimal(self.key as nat);
        match reply {
            ReplyModel::Answer(answer) => if answer_text(answer).len() > 0 {
                None
            } else {
                Some(
                    "Gemini API returned an empty response ("@ + name + ", "@ + index + ")"@,
                )
            },
            ReplyModel::Unreadable => Some(
                "Failed to parse Gemini response ("@ + name + ", "@ + index + ")"@,
            ),
            ReplyModel::Refused { status, shown } => Some(
                "Gemini API error ("@ + name + ", "@ + shown + ")"@,
            ),
            ReplyModel::Failed(error) => Some(
                "HTTP request error ("@ + name + ", "@ + index + "): "@ + ai_client::sanitized(
                    error,
                ),
            ),
        }
    }

    /// Whether the same request is worth another attempt.
    pub open spec fn worth_retrying(reply: ReplyModel) -> bool {
        match reply {
            ReplyModel::Refused { status, shown } => ai_client::is_retryable(status),
            _ => true,
        }
    }

    /// The state of the next request: another attempt, else the next key, else
    /// the next model with the first key, else none.
    pub open spec fn following(self, retry: bool) -> Option<GenerationState> {
        if retry && self.attempt + 1 < GEMINI_MAX_ATTEMPTS {
            Some(GenerationState { attempt: self.attempt + 1, ..self })
        } else if self.key + 1 < self.keys.len() {
            Some(GenerationState { attempt: 0, key: self.key + 1, ..self })
        } else if self.model + 1 < self.models.len() {
            Some(GenerationState { attempt: 0, key: 0, model: self.model + 1, ..self })
        } else {
            None
        }
    }

    /// What follows on a reply: the answer, the next request after a pause, or,
    /// when nothing is left to try, the failure without keys.
    pub open spec fn step_of(self, reply: ReplyModel) -> StepModel {
        let retry = GenerationState::worth_retrying(reply);
        match self.failure(reply) {
            None => StepModel::Answered(answer_text(reply->Answer_0)),
            Some(failure) => match self.following(retry) {
                Some(next) => StepModel::Ask(self.pause(retry)),
                None => StepModel::GaveUp(ai_client::sanitized(failure)),
            },
        }
    }

    /// The state after a reply.
    pub open spec fn after(self, reply: ReplyModel) -> GenerationState {
        match self.failure(reply) {
            None => self,
            Some(failure) => match self.following(GenerationState::worth_retrying(reply)) {
                Some(next) => next,
                None => self,
            },
        }
    }

    /// The pause before the next request.
    pub open spec fn pause(self, retry: bool) -> int {
        if retry && self.attempt + 1 < GEMINI_MAX_ATTEMPTS {
            GEMINI_RETRY_DELAY_MS * (self.attempt + 1)
        } else {
            0
        }
    }

    /// How many requests can still be sent, this one included.
    pub open spec fn requests_left(self) -> int {
        ((self.models.len() - 1 - self.model) * self.keys.len() + (self.keys.len() - 1 - self.key))
            * GEMINI_MAX_ATTEMPTS + (GEMINI_MAX_ATTEMPTS - self.attempt)
    }
}

/// A generation sends a bounded number of requests: with every further request
/// fewer are left, and at first no more than three for each model and key.
pub proof fn law_requests_are_bounded(state: GenerationState, retry: bool)
    requires
        state.valid(),
    ensures
        state.requests_left() >= 1,
        state.following(retry) matches Some(next) ==> next.valid() && next.requests_left()
            < state.requests_left(),
        state.model == 0 && state.key == 0 && state.attempt == 0 ==> state.requests_left()
            == state.models.len() * state.keys.len() * GEMINI_MAX_ATTEMPTS,
{
    let m = state.models.len() as int;
    let k = state.keys.len() as int;
    let i = state.model;
    let j = state.key;
    assert((m - 1 - i) * k >= 0) by (nonlinear_arith)
        requires
            m - 1 - i >= 0,
            k >= 0,
    ;
    if i + 1 < m {
        assert((m - 1 - i) * k == (m - 1 - (i + 1)) * k + k) by (nonlinear_arith);
    }
    assert((m - 1) * k + k == m * k) by (nonlinear_arith);
}

/// A generation in progress.
pub struct GeminiGeneration {
    endpoint: String,
    models: Vec<String>,
    keys: Vec<String>,
    model: usize,
    key: usize,
    attempt: usize,
    body: Json,
}

impl View for GeminiGeneration {
    type V = GenerationState;

    closed spec fn view(&self) -> GenerationState {
        GenerationState {
            endpoint: self.endpoint@,
            models: text::views(self.models@),
            keys: text::views(self.keys@),
            model: self.model as int,
            key: self.key as int,
            attempt: self.attempt as int,
        }
    }
}

fn candidate_models(model: &str) -> (res: Vec<String>)
    ensures
        text::views(res@) == model_candidates(model@),
        res@.len() > 0,
{
    proof {
        lemma_candidates(model@);
        text::lemma_blank_iff_trimmed_empty(model@);
    }
    let name = if text::is_blank_text(model) {
        "gemini-3.7-flash".to_owned()
    } else {
        text::trim_text(model)
    };
    let mut candidates: Vec<String> = Vec::new();
    candidates.push(name.clone());
    if !text::same_text("gemini-2.0-flash", name.as_str()) {
        candidates.push("gemini-2.0-flash".to_owned());
    }
    if !text::same_text("gemini-2.5-flash", name.as_str()) {
        candidates.push("gemini-2.5-flash".to_owned());
    }
    if !text::same_text("gemini-1.5-flash", name.as_str()) {
        candidates.push("gemini-1.5-flash".to_owned());
    }
    assert(text::views(candidates@) == model_candidates(model@));
    candidates
}

impl GeminiGeneration {
    /// The body of every request.
    pub closed spec fn body_model(&self) -> JsonModel {
        self.body.model()
    }

    /// The model that is asked next.
    pub fn model(&self) -> (res: &String)
        requires
            self@.valid(),
        ensures
            res@ == self@.models[self@.model],
    {
        &self.models[self.model]
    }

    /// The key that is used next. It goes into a header, never into the
    /// address.
    pub fn key(&self) -> (res: &String)
        requires
            self@.valid(),
        ensures
            res@ == self@.keys[self@.key],
    {
        &self.keys[self.key]
    }

    /// The body of every request.
    pub fn body(&self) -> (res: &Json)
        ensures
            res.model() == self.body_model(),
    {
        &self.body
    }

    /// The address of the next request.
    pub fn url(&self) -> (res: String)
        requires
            self@.valid(),
        ensures
            res@ == self@.url(),
    {
        let mut url = text::strip_trailing(self.endpoint.as_str(), '/');
        text::append_text(&mut url, "/models/");
        text::append_text(&mut url, self.models[self.model].as_str());
        text::append_text(&mut url, ":generateContent");
        url
    }

    fn failure_text(&self, start: &str, detail: &str) -> (res: String)
        requires
            self@.valid(),
        ensures
            res@ == start@ + self@.models[self@.model] + ", "@ + detail@,
    {
        let mut message = start.to_owned();
        text::append_text(&mut message, self.models[self.model].as_str());
        text::append_text(&mut message, ", ");
        text::append_text(&mut message, detail);
        message
    }

    /// Takes the reply to the last request and decides what follows. An empty
    /// answer counts as a failure. When nothing is left to try, the last
    /// failure is reported, without keys.
    pub fn on_reply(&mut self, reply: GeminiReply) -> (res: GeminiStep)
        requires
            old(self)@.valid(),
        ensures
            final(self)@.valid(),
            final(self).body_model() == old(self).body_model(),
            res@ == old(self)@.step_of(reply@),
            final(self)@ == old(self)@.after(reply@),
    {
        let mut retry = true;
        let index = text::decimal_text(self.key as u64);
        let last_error = match &reply {
            GeminiReply::Answer(answer) => {
                let said = read_gemini_answer(answer);
                if !said.as_str().is_empty() {
                    return GeminiStep::Answered(said);
                }
                let mut message = self.failure_text(
                    "Gemini API returned an empty response (",
                    index.as_str(),
                );
                text::append_text(&mut message, ")");
                message
            },
            GeminiReply::Unreadable => {
                let mut message = self.failure_text(
                    "Failed to parse Gemini response (",
                    index.as_str(),
                );
                text::append_text(&mut message, ")");
                message
            },
            GeminiReply::Refused { status, shown } => {
                retry = ai_client::retryable_status(*status);
                let mut message = self.failure_text("Gemini API error (", shown.as_str());
                text::append_text(&mut message, ")");
                message
            },
            GeminiReply::Failed(error) => {
                let safe = ai_client::sanitize_transport_error(error.as_str());
                let mut message = self.failure_text("HTTP request error (", index.as_str());
                text::append_text(&mut message, "): ");
                text::append_text(&mut message, safe.as_str());
                message
            },
        };
        if retry && self.attempt + 1 < GEMINI_MAX_ATTEMPTS {
            let pause: u64 = GEMINI_RETRY_DELAY_MS * (self.attempt as u64 + 1);
            self.attempt = self.attempt + 1;
            return GeminiStep::Ask(pause);
        }
        if self.key < self.keys.len() - 1 {
            self.attempt = 0;
            self.key = self.key + 1;
            return GeminiStep::Ask(0);
        }
        if self.model < self.models.len() - 1 {
            self.attempt = 0;
            self.key = 0;
            self.model = self.model + 1;
            return GeminiStep::Ask(0);
        }
        GeminiStep::GaveUp(ai_client::sanitize_transport_error(last_error.as_str()))
    }

    /// Takes the response to the last request, as it came: its status, the words
    /// for it, and its bytes, where they could be read.
    pub fn on_response(&mut self, status: u16, shown: &str, body: Option<&Vec<u8>>) -> (res:
        GeminiStep)
        requires
            old(self)@.valid(),
        ensures
            final(self)@.valid(),
            final(self).body_model() == old(self).body_model(),
            ({
                let parsed = match body {
                    Some(bytes) => json::parsed_bytes_model(bytes@),
                    None => None,
                };
                let reply = response_reply(status, shown@, parsed);
                res@ == old(self)@.step_of(reply) && final(self)@ == old(self)@.after(reply)
            }),
    {
        let reply = if !(200 <= status && status < 300) {
            GeminiReply::Refused { status, shown: shown.to_owned() }
        } else {
            match body {
                Some(bytes) => match json::parse_json_bytes(bytes.as_slice()) {
                    Ok(answer) => GeminiReply::Answer(answer),
                    Err(_) => GeminiReply::Unreadable,
                },
                None => GeminiReply::Unreadable,
            }
        };
        self.on_reply(reply)
    }
}

/// What is answered on keys that cannot be used.
pub open spec fn key_error_text(error: GeminiKeyError) -> Seq<char> {
    match error {
        GeminiKeyError::Missing => "Gemini API key is not set"@,
        GeminiKeyError::Invalid => "Gemini API key configuration is invalid"@,
    }
}

/// The client of the language models.
pub struct AiClient {
    endpoint_base: String,
}

impl View for AiClient {
    type V = Seq<char>;

    closed spec fn view(&self) -> Seq<char> {
        self.endpoint_base@
    }
}

impl Default for AiClient {
    fn default() -> (res: Self)
        ensures
            res@ == ai_client::GEMINI_DEFAULT_ENDPOINT@,
    {
        AiClient::new()
    }
}

impl AiClient {
    /// A client of the public service.
    pub fn new() -> (res: Self)
        ensures
            res@ == ai_client::GEMINI_DEFAULT_ENDPOINT@,
    {
        AiClient { endpoint_base: ai_client::GEMINI_DEFAULT_ENDPOINT.to_owned() }
    }

    /// A client of the service at another address.
    pub fn with_endpoint(endpoint_base: String) -> (res: Self)
        ensures
            res@ == endpoint_base@,
    {
        AiClient { endpoint_base }
    }

    /// Begins a generation. Every model is tried with every key before the
    /// next model is; the first request is the chosen model with the first
    /// key.
    pub fn generate_gemini(
        &self,
        api_key_str: &str,
        model: &str,
        messages: &Vec<ChatMessage>,
        options: &AiGenerateOptions,
    ) -> (res: Result<GeminiGeneration, String>)
        ensures
            match ai_client::configured_keys(api_key_str@) {
                Ok(keys) => res matches Ok(generation) && generation@ == (GenerationState {
                    endpoint: self@,
                    models: model_candidates(model@),
                    keys,
                    model: 0,
                    key: 0,
                    attempt: 0,
                }) && generation@.valid() && generation.body_model() == gemini_body(
                    messages@,
                    *options,
                ),
                Err(error) => res matches Err(message) && message@ == key_error_text(error),
            },
    {
        match ai_client::parse_gemini_api_keys(api_key_str) {
            Ok(keys) => {
                let models = candidate_models(model);
                let body = gemini_request_body(messages, options);
                Ok(
                    GeminiGeneration {
                        endpoint: self.endpoint_base.clone(),
                        models,
                        keys,
                        model: 0,
                        key: 0,
                        attempt: 0,
                        body,
                    },
                )
            },
            Err(GeminiKeyError::Missing) => Err("Gemini API key is not set".to_owned()),
            Err(GeminiKeyError::Invalid) => Err(
                "Gemini API key configuration is invalid".to_owned(),
            ),
        }
    }

    /// The address and the body of a request to a local server.
    pub fn generate_llama_cpp(
        &self,
        base_url: &str,
        messages: &Vec<ChatMessage>,
        options: &AiGenerateOptions,
    ) -> (res: (String, Json))
        ensures
            res.0@ == text::without_trailing(base_url@, '/') + "/v1/chat/completions"@,
            res.1.model() == llama_body(messages@, *options),
    {
        let mut endpoint = text::strip_trailing(base_url, '/');
        text::append_text(&mut endpoint, "/v1/chat/completions");
        let mut list: Vec<Json> = Vec::new();
        if let Some(instruction) = &options.system_instruction {
            if !instruction.as_str().is_empty() {
                list.push(build_llama_message("system", instruction.as_str()));
            }
        }
        let ghost first = list@;
        let ghost sent = messages@.map_values(|m: ChatMessage| llama_message(m.role@, m.content@));
        assert(json::item_models(list@) == json::item_models(first) + sent.take(0));
        let mut i: usize = 0;
        while i < messages.len()
            invariant
                i <= messages@.len(),
                sent == messages@.map_values(|m: ChatMessage| llama_message(m.role@, m.content@)),
                json::item_models(list@) == json::item_models(first) + sent.take(i as int),
            decreases messages@.len() - i,
        {
            let ghost before = list@;
            let item = build_llama_message(messages[i].role.as_str(), messages[i].content.as_str());
            list.push(item);
            i += 1;
            assert(json::item_models(list@) == json::item_models(before).push(item.model()));
            assert(sent.take(i as int) == sent.take(i - 1).push(sent[i - 1]));
        }
        assert(sent.take(i as int) == sent);
        let max_tokens = match options.max_output_tokens {
            Some(n) => text::signed_decimal_text(n),
            None => text::signed_decimal_text(300),
        };
        let temperature = match &options.temperature {
            Some(written) => written.clone(),
            None => DEFAULT_TEMPERATURE.to_owned(),
        };
        let mut members: Vec<JsonMember> = Vec::new();
        members.push(json::member("max_tokens", Json::Number(max_tokens)));
        members.push(json::member("messages", json::array(list)));
        members.push(json::member("stream", Json::Bool(false)));
        members.push(json::member("temperature", Json::Number(temperature)));
        assert(json::item_models(first) + sent == llama_messages(messages@, *options));
        assert(json::member_models(members@) == llama_body(messages@, *options)->Object_0);
        (endpoint, json::object(members))
    }
}

pub open spec fn llama_message(role: Seq<char>, content: Seq<char>) -> JsonModel {
    JsonModel::Object(
        seq![("content"@, JsonModel::Text(content)), ("role"@, JsonModel::Text(role))],
    )
}

/// The messages of a request to a local server: the instruction first, where
/// there is one.
pub open spec fn llama_messages(messages: Seq<ChatMessage>, options: AiGenerateOptions) -> Seq<
    JsonModel,
> {
    (if has_instruction(options) {
        seq![llama_message("system"@, options.system_instruction->0@)]
    } else {
        Seq::empty()
    }) + messages.map_values(|m: ChatMessage| llama_message(m.role@, m.content@))
}

/// The body of a request to a local server.
pub open spec fn llama_body(messages: Seq<ChatMessage>, options: AiGenerateOptions) -> JsonModel {
    JsonModel::Object(
        seq![
            (
                "max_tokens"@,
                number_model(
                    match options.max_output_tokens {
                        Some(n) => n,
                        None => 300,
                    },
                ),
            ),
            ("messages"@, JsonModel::Array(llama_messages(messages, options))),
            ("stream"@, JsonModel::Bool(false)),
            (
                "temperature"@,
                JsonModel::Number(
                    match options.temperature {
                        Some(written) => written@,
                        None => DEFAULT_TEMPERATURE@,
                    },
                ),
            ),
        ],
    )
}

fn build_llama_message(role: &str, content: &str) -> (res: Json)
    ensures
        res.model() == llama_message(role@, content@),
{
    let mut members: Vec<JsonMember> = Vec::new();
    members.push(json::member("content", json::string_value(content)));
    members.push(json::member("role", json::string_value(role)));
    assert(json::member_models(members@) == llama_message(role@, content@)->Object_0);
    json::object(members)
}

/// What a local server answered: the content of the first choice, trimmed.
pub open spec fn llama_text(answer: JsonModel) -> Seq<char> {
    text::trimmed(
        match answer.get("choices"@) {
            Some(choices) => match choices.at(0) {
                Some(choice) => match choice.get("message"@) {
                    Some(message) => match message.text_member("content"@) {
                        Some(content) => content,
                        None => Seq::empty(),
                    },
                    None => Seq::empty(),
                },
                None => Seq::empty(),
            },
            None => Seq::empty(),
        },
    )
}

/// Reads what a local server answered.
pub fn read_llama_answer(answer: &Json) -> (res: String)
    ensures
        res@ == llama_text(answer.model()),
{
    if let Some(choices) = answer.get("choices") {
        if let Some(choice) = choices.at(0) {
            if let Some(message) = choice.get("message") {
                if let Some(content) = message.text_member("content") {
                    return text::trim_text(content.as_str());
                }
            }
        }
    }
    assert(text::trimmed(Seq::<char>::empty()) == Seq::<char>::empty());
    String::new()
}

/// Reads the response of a local server, as it came: its status, the words for
/// it, and its bytes.
pub fn read_llama_response(status: u16, shown: &str, body: &[u8]) -> (res: Result<String, String>)
    ensures
        if !is_success(status) {
            res is Err && res->Err_0@ == "llama.cpp HTTP error: "@ + shown@
        } else {
            match json::parsed_bytes_model(body@) {
                Some(answer) => res is Ok && res->Ok_0@ == llama_text(answer),
                None => res is Err && res->Err_0@
                    == "Failed to parse llama.cpp response: error decoding response body"@,
            }
        },
{
    if !(200 <= status && status < 300) {
        let mut message = "llama.cpp HTTP error: ".to_owned();
        text::append_text(&mut message, shown);
        return Err(message);
    }
    match json::parse_json_bytes(body) {
        Ok(answer) => Ok(read_llama_answer(&answer)),
        Err(_) => Err(
            "Failed to parse llama.cpp response: error decoding response body".to_owned(),
        ),
    }
}

proof fn lemma_content_members(role: Seq<char>, parts: Seq<JsonModel>)
    ensures
        content_model(role, parts).get("role"@) == Some(JsonModel::Text(role)),
        content_model(role, parts).get("parts"@) == Some(JsonModel::Array(parts)),
{
    reveal_strlit("role");
    reveal_strlit("parts");
    assert("role"@.len() != "parts"@.len());
    let members = seq![("parts"@, JsonModel::Array(parts)), ("role"@, JsonModel::Text(role))];
    reveal_with_fuel(JsonModel::member_from, 3);
    assert(members[0].0 == "parts"@);
    assert(members.drop_first()[0] == members[1]);
}

proof fn lemma_text_part_member(said: Seq<char>)
    ensures
        text_part(said).get("text"@) == Some(JsonModel::Text(said)),
{
    let members = seq![("text"@, JsonModel::Text(said))];
    assert(members[0].0 == "text"@);
}

proof fn lemma_body_contents(messages: Seq<ChatMessage>, options: AiGenerateOptions)
    ensures
        gemini_body(messages, options).get("contents"@) == Some(
            JsonModel::Array(contents_model(messages, text::opt_view(options.image_base64))),
        ),
{
    let members = gemini_body(messages, options)->Object_0;
    assert(members[0].0 == "contents"@);
}

/// In the body of a request every message is sent, in its place, with its
/// text. It is the model's where its role is that of the assistant or the
/// model, and the user's in every other case.
pub proof fn law_messages_keep_their_place_role_and_text(
    messages: Seq<ChatMessage>,
    options: AiGenerateOptions,
    i: int,
)
    requires
        0 <= i < messages.len(),
    ensures
        ({
            let contents = gemini_body(messages, options).get("contents"@)->0;
            let sent = contents->Array_0[i];
            let role = messages[i].role@;
            &&& gemini_body(messages, options).get("contents"@) is Some
            &&& contents is Array
            &&& contents->Array_0.len() == messages.len()
            &&& role == "assistant"@ || role == "model"@ ==> sent.text_member("role"@) == Some(
                "model"@,
            )
            &&& role != "assistant"@ && role != "model"@ ==> sent.text_member("role"@) == Some(
                "user"@,
            )
            &&& role == "user"@ ==> sent.text_member("role"@) == Some("user"@)
            &&& sent.get("parts"@) is Some
            &&& sent.get("parts"@)->0 is Array
            &&& sent.get("parts"@)->0->Array_0[0].text_member("text"@) == Some(
                messages[i].content@,
            )
            &&& sent.get("parts"@)->0->Array_0.len() == if i == messages.len() - 1
                && options.image_base64 is Some {
                2
            } else {
                1nat
            }
        }),
{
    reveal_strlit("user");
    reveal_strlit("assistant");
    reveal_strlit("model");
    assert("user"@.len() != "assistant"@.len());
    assert("user"@.len() != "model"@.len());
    lemma_body_contents(messages, options);
    let image = text::opt_view(options.image_base64);
    let parts = parts_of_message(messages, image, i);
    lemma_content_members(sent_role(messages[i].role@), parts);
    lemma_text_part_member(messages[i].content@);
    assert(parts[0] == text_part(messages[i].content@));
}

/// An image goes with the last message, after its text, or alone as the user's
/// where there is no message; nowhere else does a request hold one.
pub proof fn law_images_go_with_the_last_message(
    messages: Seq<ChatMessage>,
    options: AiGenerateOptions,
)
    requires
        options.image_base64 is Some,
    ensures
        ({
            let contents = gemini_body(messages, options).get("contents"@)->0->Array_0;
            let last = contents.last();
            let part = last.get("parts"@)->0->Array_0.last();
            let image = options.image_base64->0@;
            &&& contents.len() > 0
            &&& messages.len() == 0 ==> contents.len() == 1 && last.text_member("role"@) == Some(
                "user"@,
            ) && last.get("parts"@)->0->Array_0.len() == 1
            &&& part.get("inline_data"@) is Some
            &&& part.get("text"@) is None
            &&& part.get("inline_data"@)->0.text_member("data"@) == Some(image_data(image))
            &&& part.get("inline_data"@)->0.text_member("mime_type"@) == Some(
                if text::begins_with(image, "data:image/png"@) {
                    "image/png"@
                } else {
                    "image/jpeg"@
                },
            )
        }),
{
    let image = options.image_base64->0@;
    let given = text::opt_view(options.image_base64);
    assert(given == Some(image));
    lemma_body_contents(messages, options);
    let contents = contents_model(messages, given);
    lemma_image_members(image);
    if messages.len() == 0 {
        lemma_content_members("user"@, seq![image_part(image)]);
        assert(contents.last() == content_model("user"@, seq![image_part(image)]));
        assert(seq![image_part(image)].last() == image_part(image));
    } else {
        let i = messages.len() - 1;
        let parts = parts_of_message(messages, given, i);
        lemma_content_members(sent_role(messages[i].role@), parts);
        assert(contents.last() == content_model(sent_role(messages[i].role@), parts));
        assert(parts.last() == image_part(image));
    }
}

proof fn lemma_image_members(image: Seq<char>)
    ensures
        image_part(image).get("inline_data"@) is Some,
        image_part(image).get("text"@) is None,
        image_part(image).get("inline_data"@)->0.text_member("data"@) == Some(image_data(image)),
        image_part(image).get("inline_data"@)->0.text_member("mime_type"@) == Some(
            image_type(image),
        ),
{
    reveal_strlit("inline_data");
    reveal_strlit("text");
    reveal_strlit("data");
    reveal_strlit("mime_type");
    reveal_with_fuel(JsonModel::member_from, 3);
    let inner = seq![
        ("data"@, JsonModel::Text(image_data(image))),
        ("mime_type"@, JsonModel::Text(image_type(image))),
    ];
    assert(inner[0].0 == "data"@);
    assert(inner.drop_first()[0] == inner[1]);
    assert("data"@.len() != "mime_type"@.len());
    assert("inline_data"@.len() != "text"@.len());
    let outer = image_part(image)->Object_0;
    assert(outer[0] == ("inline_data"@, JsonModel::Object(inner)));
    assert(outer.drop_first().len() == 0);
}

/// The data of an image is what follows the mark of its encoding: the header
/// before the first mark is dropped, and an image without a mark is sent as it
/// is.
pub proof fn law_image_headers_are_dropped(image: Seq<char>, at: int)
    ensures
        0 <= at && at + 7 <= image.len() && image.subrange(at, at + 7) == "base64,"@ && (forall|
            k: int,
        |
            0 <= k < at ==> #[trigger] image.subrange(k, k + 7) != "base64,"@) ==> image_data(image)
            == image.skip(at + 7),
        !text::contains_text(image, "base64,"@) ==> image_data(image) == image,
{
    reveal_strlit("base64,");
    let mark = "base64,"@;
    assert(mark.len() == 7);
    text::lemma_find_from(image, mark, 0);
    if let Some(first) = text::find_from(image, mark, 0) {
        assert(text::occurs_at(image, mark, first));
        assert(image.subrange(first, first + 7) == mark);
    }
    if 0 <= at && at + 7 <= image.len() && image.subrange(at, at + 7) == mark {
        assert(text::occurs_at(image, mark, at));
    }
}

/// The settings that are given go into a request under their names, and those
/// that are not do not; without any there is no place for them.
pub proof fn law_given_settings_are_sent(messages: Seq<ChatMessage>, options: AiGenerateOptions)
    ensures
        ({
            let config = gemini_body(messages, options).get("generationConfig"@);
            &&& config is Some == (options.max_output_tokens is Some || options.temperature is Some
                || options.thinking_budget is Some)
            &&& options.max_output_tokens matches Some(n) ==> config->0.get("maxOutputTokens"@)
                == Some(JsonModel::Number(text::signed_decimal(n as int)))
            &&& options.max_output_tokens is None && config is Some ==> config->0.get(
                "maxOutputTokens"@,
            ) is None
            &&& options.temperature matches Some(t) ==> config->0.get("temperature"@) == Some(
                JsonModel::Number(t@),
            )
            &&& options.temperature is None && config is Some ==> config->0.get(
                "temperature"@,
            ) is None
            &&& options.thinking_budget matches Some(n) ==> config->0.get("thinkingConfig"@)->0.get(
                "thinkingBudget"@,
            ) == Some(JsonModel::Number(text::signed_decimal(n as int)))
            &&& options.thinking_budget is None && config is Some ==> config->0.get(
                "thinkingConfig"@,
            ) is None
        }),
{
    reveal_strlit("contents");
    reveal_strlit("generationConfig");
    reveal_strlit("system_instruction");
    reveal_strlit("maxOutputTokens");
    reveal_strlit("temperature");
    reveal_strlit("thinkingConfig");
    reveal_strlit("thinkingBudget");
    reveal_with_fuel(JsonModel::member_from, 4);
    let config = generation_config(options);
    lemma_body_members(messages, options);
    assert("maxOutputTokens"@.len() == 15 && "temperature"@.len() == 11 && "thinkingConfig"@.len()
        == 14);
    if let Some(n) = options.thinking_budget {
        let inner = seq![("thinkingBudget"@, number_model(n))];
        assert(inner[0].0 == "thinkingBudget"@);
        assert(config.last() == ("thinkingConfig"@, JsonModel::Object(inner)));
    }
    if config.len() > 0 {
        assert(config.drop_first() == config.skip(1));
        if config.len() > 1 {
            assert(config.drop_first().drop_first() == config.skip(2));
        }
        if config.len() > 2 {
            assert(config.drop_first().drop_first().drop_first() == config.skip(3));
        }
    }
}

proof fn lemma_body_members(messages: Seq<ChatMessage>, options: AiGenerateOptions)
    ensures
        ({
            let body = gemini_body(messages, options);
            &&& body.get("generationConfig"@) == if generation_config(options).len() > 0 {
                Some(JsonModel::Object(generation_config(options)))
            } else {
                None
            }
            &&& body.get("system_instruction"@) == if has_instruction(options) {
                Some(
                    JsonModel::Object(
                        seq![
                            (
                                "parts"@,
                                JsonModel::Array(seq![text_part(options.system_instruction->0@)]),
                            ),
                        ],
                    ),
                )
            } else {
                None
            }
        }),
{
    reveal_strlit("contents");
    reveal_strlit("generationConfig");
    reveal_strlit("system_instruction");
    reveal_with_fuel(JsonModel::member_from, 4);
    let members = gemini_body(messages, options)->Object_0;
    assert("contents"@.len() == 8 && "generationConfig"@.len() == 16 && "system_instruction"@.len()
        == 18);
    assert(members[0].0 == "contents"@);
    assert(members.drop_first() == members.skip(1));
    if members.len() > 1 {
        assert(members.drop_first()[0] == members[1]);
        assert(members.drop_first().drop_first() == members.skip(2));
    }
    if members.len() > 2 {
        assert(members.drop_first().drop_first()[0] == members[2]);
        assert(members.drop_first().drop_first().drop_first() == members.skip(3));
    }
}

/// An instruction is sent apart from the messages, word for word, and an empty
/// one not at all.
pub proof fn law_instructions_are_sent_apart(
    messages: Seq<ChatMessage>,
    options: AiGenerateOptions,
)
    ensures
        ({
            let sent = gemini_body(messages, options).get("system_instruction"@);
            &&& options.system_instruction is None ==> sent is None
            &&& options.system_instruction matches Some(given) ==> given@.len() == 0 ==> sent is None
            &&& options.system_instruction matches Some(given) ==> given@.len() > 0 ==> sent is Some
                && sent->0.get("parts"@) is Some && sent->0.get("parts"@)->0->Array_0.len() == 1
                && sent->0.get("parts"@)->0->Array_0[0].text_member("text"@) == Some(given@)
        }),
{
    lemma_body_members(messages, options);
    if let Some(given) = options.system_instruction {
        lemma_text_part_member(given@);
        let members = seq![("parts"@, JsonModel::Array(seq![text_part(given@)]))];
        assert(members[0].0 == "parts"@);
    }
}

/// A local server gets the instruction first, where there is one, and then
/// every message with its own role and text.
pub proof fn law_local_servers_get_every_message(
    messages: Seq<ChatMessage>,
    options: AiGenerateOptions,
    i: int,
)
    requires
        0 <= i < messages.len(),
    ensures
        ({
            let sent = llama_body(messages, options).get("messages"@)->0->Array_0;
            let before: int = if options.system_instruction is Some
                && options.system_instruction->0@.len() > 0 {
                1
            } else {
                0
            };
            &&& llama_body(messages, options).get("messages"@) is Some
            &&& sent.len() == before + messages.len()
            &&& sent[before + i].text_member("role"@) == Some(messages[i].role@)
            &&& sent[before + i].text_member("content"@) == Some(messages[i].content@)
            &&& before == 1 ==> sent[0].text_member("role"@) == Some("system"@)
            &&& before == 1 ==> sent[0].text_member("content"@) == Some(
                options.system_instruction->0@,
            )
        }),
{
    lemma_llama_members(messages, options);
    lemma_llama_message_members(messages[i].role@, messages[i].content@);
    if has_instruction(options) {
        lemma_llama_message_members("system"@, options.system_instruction->0@);
    }
}

/// A local server is told the number of tokens and the temperature that are
/// given, else three hundred tokens and seven tenths, and answers at once.
pub proof fn law_local_servers_get_the_settings(
    messages: Seq<ChatMessage>,
    options: AiGenerateOptions,
)
    ensures
        llama_body(messages, options).bool_member("stream"@) == Some(false),
        llama_body(messages, options).get("max_tokens"@) == Some(
            JsonModel::Number(
                text::signed_decimal(
                    match options.max_output_tokens {
                        Some(n) => n as int,
                        None => 300,
                    },
                ),
            ),
        ),
        llama_body(messages, options).get("temperature"@) == Some(
            JsonModel::Number(
                match options.temperature {
                    Some(given) => given@,
                    None => "0.699999988079071"@,
                },
            ),
        ),
{
    lemma_llama_members(messages, options);
}

proof fn lemma_llama_message_members(role: Seq<char>, content: Seq<char>)
    ensures
        llama_message(role, content).text_member("role"@) == Some(role),
        llama_message(role, content).text_member("content"@) == Some(content),
{
    reveal_strlit("role");
    reveal_strlit("content");
    reveal_with_fuel(JsonModel::member_from, 3);
    assert("role"@.len() != "content"@.len());
    let members = seq![("content"@, JsonModel::Text(content)), ("role"@, JsonModel::Text(role))];
    assert(members[0].0 == "content"@);
    assert(members.drop_first()[0] == members[1]);
}

proof fn lemma_llama_members(messages: Seq<ChatMessage>, options: AiGenerateOptions)
    ensures
        ({
            let members = llama_body(messages, options)->Object_0;
            let body = llama_body(messages, options);
            &&& body.get("max_tokens"@) == Some(members[0].1)
            &&& body.get("messages"@) == Some(members[1].1)
            &&& body.get("stream"@) == Some(members[2].1)
            &&& body.get("temperature"@) == Some(members[3].1)
        }),
{
    reveal_strlit("max_tokens");
    reveal_strlit("messages");
    reveal_strlit("stream");
    reveal_strlit("temperature");
    reveal_with_fuel(JsonModel::member_from, 5);
    assert("max_tokens"@.len() == 10 && "messages"@.len() == 8 && "stream"@.len() == 6
        && "temperature"@.len() == 11);
    let members = llama_body(messages, options)->Object_0;
    assert(members.drop_first()[0] == members[1]);
    assert(members.drop_first().drop_first()[0] == members[2]);
    assert(members.drop_first().drop_first().drop_first()[0] == members[3]);
}

/// What a model says is put together from the parts of its answer, in their
/// order: a part that is a thought adds nothing, any other its text.
pub proof fn law_answers_are_put_together_from_their_parts(
    before: Seq<JsonModel>,
    part: JsonModel,
)
    ensures
        parts_text(Seq::empty()) == Seq::<char>::empty(),
        part.bool_member("thought"@) == Some(true) ==> parts_text(before.push(part)) == parts_text(
            before,
        ),
        part.get("thought_signature"@) is Some ==> parts_text(before.push(part)) == parts_text(
            before,
        ),
        part.bool_member("thought"@) != Some(true) && part.get("thought_signature"@) is None
            && part.text_member("text"@) is Some ==> parts_text(before.push(part)) == parts_text(
            before,
        ) + part.text_member("text"@)->0,
        part.text_member("text"@) is None ==> parts_text(before.push(part)) == parts_text(before),
{
    let all = before.push(part);
    assert(all.drop_last() == before);
    assert(all.last() == part);
    assert(parts_text(before) + Seq::<char>::empty() == parts_text(before));
}

/// A blank model name stands for the default model; any other is trimmed. The
/// chosen model comes first, and after it the other ones in this order.
pub proof fn law_fallback_models_follow_the_chosen_one(model: Seq<char>)
    ensures
        text::is_blank(model) ==> model_candidates(model)[0] == "gemini-3.7-flash"@,
        !text::is_blank(model) ==> model_candidates(model)[0] == text::trimmed(model),
        ({
            let first = model_candidates(model)[0];
            let others = model_candidates(model).skip(1);
            &&& first != "gemini-2.0-flash"@ && first != "gemini-2.5-flash"@ && first
                != "gemini-1.5-flash"@ ==> others == seq![
                "gemini-2.0-flash"@,
                "gemini-2.5-flash"@,
                "gemini-1.5-flash"@,
            ]
            &&& first == "gemini-2.0-flash"@ ==> others == seq![
                "gemini-2.5-flash"@,
                "gemini-1.5-flash"@,
            ]
            &&& first == "gemini-2.5-flash"@ ==> others == seq![
                "gemini-2.0-flash"@,
                "gemini-1.5-flash"@,
            ]
            &&& first == "gemini-1.5-flash"@ ==> others == seq![
                "gemini-2.0-flash"@,
                "gemini-2.5-flash"@,
            ]
        }),
{
    lemma_fallback_models_differ();
    lemma_candidates(model);
}

/// An answer with words ends a generation, and its words are the result. Every
/// other reply does not.
pub proof fn law_the_first_answer_ends_a_generation(state: GenerationState, reply: ReplyModel)
    ensures
        reply is Answer && answer_text(reply->Answer_0).len() > 0 ==> state.step_of(reply)
            == StepModel::Answered(answer_text(reply->Answer_0)),
        (reply is Answer ==> answer_text(reply->Answer_0).len() == 0) ==> !(state.step_of(
            reply,
        ) is Answered),
{
}

/// After a reply that is no answer the same request is sent again, up to three
/// times in all, with a pause that grows by a tenth of a second; a refusal is
/// repeated only where its status can pass. Then the next key follows with the
/// same model, then the next model with the first key, at once. When none is
/// left the generation has failed.
pub proof fn law_every_key_and_model_is_tried(state: GenerationState, reply: ReplyModel)
    requires
        state.valid(),
        reply is Answer ==> answer_text(reply->Answer_0).len() == 0,
    ensures
        ({
            let lasting = reply is Refused && !(reply->status == 408 || reply->status == 425
                || reply->status == 429 || reply->status == 500 || reply->status == 502
                || reply->status == 503 || reply->status == 504);
            let next = state.after(reply);
            let step = state.step_of(reply);
            &&& next.endpoint == state.endpoint
            &&& next.models == state.models
            &&& next.keys == state.keys
            &&& if !lasting && state.attempt < 2 {
                &&& next.model == state.model
                &&& next.key == state.key
                &&& next.attempt == state.attempt + 1
                &&& step == StepModel::Ask(100 * (state.attempt + 1))
            } else if state.key + 1 < state.keys.len() {
                &&& next.model == state.model
                &&& next.key == state.key + 1
                &&& next.attempt == 0
                &&& step == StepModel::Ask(0)
            } else if state.model + 1 < state.models.len() {
                &&& next.model == state.model + 1
                &&& next.key == 0
                &&& next.attempt == 0
                &&& step == StepModel::Ask(0)
            } else {
                &&& next == state
                &&& step is GaveUp
            }
        }),
{
}

/// The failure that is reported names the model and what went wrong with it,
/// and holds no key.
pub proof fn law_failures_name_the_model(state: GenerationState, reply: ReplyModel)
    requires
        state.step_of(reply) is GaveUp,
    ensures
        ({
            let name = state.models[state.model];
            let index = text::decimal(state.key as nat);
            let reported = state.step_of(reply)->GaveUp_0;
            match reply {
                ReplyModel::Answer(_) => reported == ai_client::sanitized(
                    "Gemini API returned an empty response ("@ + name + ", "@ + index + ")"@,
                ),
                ReplyModel::Unreadable => reported == ai_client::sanitized(
                    "Failed to parse Gemini response ("@ + name + ", "@ + index + ")"@,
                ),
                ReplyModel::Refused { status, shown } => reported == ai_client::sanitized(
                    "Gemini API error ("@ + name + ", "@ + shown + ")"@,
                ),
                ReplyModel::Failed(error) => reported == ai_client::sanitized(
                    "HTTP request error ("@ + name + ", "@ + index + "): "@ + ai_client::sanitized(
                        error,
                    ),
                ),
            }
        }),
{
}

/// A response counts as an answer exactly where its status is one of success
/// and its body is JSON; other statuses are refusals, whatever the body.
pub proof fn law_only_successes_are_read(
    status: u16,
    shown: Seq<char>,
    parsed: Option<JsonModel>,
)
    ensures
        !(200 <= status <= 299) ==> response_reply(status, shown, parsed) == (ReplyModel::Refused {
            status,
            shown,
        }),
        200 <= status <= 299 ==> response_reply(status, shown, parsed) == match parsed {
            Some(answer) => ReplyModel::Answer(answer),
            None => ReplyModel::Unreadable,
        },
{
}

/// The address of a request names the service and the model, with one slash
/// between them however many the service's address ends with, and never a key.
pub proof fn law_addresses_hold_no_key(state: GenerationState, other: Seq<Seq<char>>)
    ensures
        state.url() == (GenerationState { keys: other, ..state }).url(),
        state.endpoint.len() > 0 && state.endpoint.last() != '/' ==> state.url() == state.endpoint
            + "/models/"@ + state.models[state.model] + ":generateContent"@,
        state.url() == (GenerationState { endpoint: state.endpoint.push('/'), ..state }).url(),
{
    assert(state.endpoint.push('/').drop_last() == state.endpoint);
}

/// The answer of a local server is the content of its first choice, trimmed.
pub proof fn law_local_answers_are_trimmed(answer: JsonModel, choices: Seq<JsonModel>, said: Seq<
    char,
>)
    requires
        answer.get("choices"@) == Some(JsonModel::Array(choices)),
        choices.len() > 0,
        choices[0].get("message"@) is Some,
        choices[0].get("message"@)->0.text_member("content"@) == Some(said),
    ensures
        llama_text(answer) == text::trimmed(said),
{
}

/// An answer is read from the parts of the content of its first candidate, and
/// from nothing else; without them it says nothing.
pub proof fn law_answers_stand_in_the_first_candidate(
    answer: JsonModel,
    candidates: Seq<JsonModel>,
    content: JsonModel,
    parts: Seq<JsonModel>,
)
    requires
        answer.get("candidates"@) == Some(JsonModel::Array(candidates)),
    ensures
        candidates.len() > 0 && candidates[0].get("content"@) == Some(content) && content.get(
            "parts"@,
        ) == Some(JsonModel::Array(parts)) ==> answer_text(answer) == ai_client::without_thoughts(
            parts_text(parts),
        ),
        candidates.len() == 0 || candidates[0].get("content"@) is None ==> parts_text(
            answer_parts(answer),
        ).len() == 0,
{
}

/// Keys that are missing are told from keys that cannot be used.
pub proof fn law_missing_keys_are_told_from_bad_ones(error: GeminiKeyError)
    ensures
        text::begins_with(key_error_text(error), "Gemini API key "@),
        text::contains_text(key_error_text(error), "not set"@) == (error is Missing),
        text::contains_text(key_error_text(error), "invalid"@) == (error is Invalid),
{
    reveal_strlit("Gemini API key ");
    reveal_strlit("not set");
    reveal_strlit("invalid");
    reveal_strlit("Gemini API key is not set");
    reveal_strlit("Gemini API key configuration is invalid");
    let missing = "Gemini API key is not set"@;
    let invalid = "Gemini API key configuration is invalid"@;
    assert(missing.take(15) == "Gemini API key "@);
    assert(invalid.take(15) == "Gemini API key "@);
    assert(missing.subrange(18, 25) == "not set"@);
    assert(text::occurs_at(missing, "not set"@, 18));
    assert(invalid.subrange(32, 39) == "invalid"@);
    assert(text::occurs_at(invalid, "invalid"@, 32));
    assert forall|k: int| !text::occurs_at(missing, "invalid"@, k) by {
        if text::occurs_at(missing, "invalid"@, k) {
            assert(missing.subrange(k, k + 7)[2] == missing[k + 2]);
            assert(missing.subrange(k, k + 7)[2] == 'v');
        }
    }
    assert forall|k: int| !text::occurs_at(invalid, "not set"@, k) by {
        if text::occurs_at(invalid, "not set"@, k) {
            assert(invalid.subrange(k, k + 7)[4] == invalid[k + 4]);
            assert(invalid.subrange(k, k + 7)[4] == 's');
            assert(invalid.subrange(k, k + 7)[0] == invalid[k]);
        }
    }
}

} // verus!
