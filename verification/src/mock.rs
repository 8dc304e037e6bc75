//! A scripted stand-in for an Ollama node, used to exercise the cluster in
//! tests: its configuration and how it answers each request.

use vstd::prelude::*;
use crate::text::{contains_text, text_contains};

verus! {

/// Mock model tag entry matching Ollama `/api/tags`.
#[derive(Debug, Clone)]
pub struct MockModel {
    pub name: String,
    pub digest: String,
    pub size: u64,
    pub modified_at: String,
}

/// Loaded model entry matching Ollama `/api/ps`.
#[derive(Debug, Clone)]
pub struct MockLoadedModel {
    pub name: String,
}

/// Behaviour configuration for the mock server.
#[derive(Debug, Clone)]
pub struct MockConfig {
    pub version: String,
    pub models: Vec<MockModel>,
    pub loaded: Vec<MockLoadedModel>,
    pub generate_response: String,
    pub chat_response: String,
    pub stream_chunks: Vec<String>,
    pub stream_delay_ms: u64,
    pub error_status: Option<u16>,
    pub fail_connection: bool,
    pub disconnect_mid_stream: bool,
}

/// The generate answer of the default mock.
pub open spec fn default_generate_response() -> Seq<char> {
    "{\"model\":\"llama3.2:latest\",\"response\":\"hello\",\"done\":true}"@
}

/// The chat answer of the default mock.
pub open spec fn default_chat_response() -> Seq<char> {
    "{\"model\":\"llama3.2:latest\",\"message\":{\"role\":\"assistant\",\"content\":\"hello\"},\"done\":true}"@
}

impl Default for MockConfig {
    fn default() -> (r: Self)
        ensures
            r.version@ == "0.5.0"@,
            r.models@.len() == 1,
            r.models@[0].name@ == "llama3.2:latest"@,
            r.models@[0].digest@ == "abc123"@,
            r.models@[0].size == 4_000_000_000,
            r.models@[0].modified_at@ == "2026-01-01T00:00:00Z"@,
            r.loaded@.len() == 0,
            r.generate_response@ == default_generate_response(),
            r.chat_response@ == default_chat_response(),
            r.stream_chunks@.len() == 2,
            r.stream_chunks@[0]@
                == "{\"model\":\"llama3.2:latest\",\"message\":{\"role\":\"assistant\",\"content\":\"he\"},\"done\":false}"@,
            r.stream_chunks@[1]@
                == "{\"model\":\"llama3.2:latest\",\"message\":{\"role\":\"assistant\",\"content\":\"llo\"},\"done\":true}"@,
            r.stream_delay_ms == 0,
            r.error_status is None,
            !r.fail_connection,
            !r.disconnect_mid_stream,
    {
        MockConfig {
            version: "0.5.0".to_owned(),
            models: vec![
                MockModel {
                    name: "llama3.2:latest".to_owned(),
                    digest: "abc123".to_owned(),
                    size: 4_000_000_000,
                    modified_at: "2026-01-01T00:00:00Z".to_owned(),
                },
            ],
            loaded: Vec::new(),
            generate_response: "{\"model\":\"llama3.2:latest\",\"response\":\"hello\",\"done\":true}".to_owned(),
            chat_response: "{\"model\":\"llama3.2:latest\",\"message\":{\"role\":\"assistant\",\"content\":\"hello\"},\"done\":true}".to_owned(),
            stream_chunks: vec![
                "{\"model\":\"llama3.2:latest\",\"message\":{\"role\":\"assistant\",\"content\":\"he\"},\"done\":false}".to_owned(),
                "{\"model\":\"llama3.2:latest\",\"message\":{\"role\":\"assistant\",\"content\":\"llo\"},\"done\":true}".to_owned(),
            ],
            stream_delay_ms: 0,
            error_status: None,
            fail_connection: false,
            disconnect_mid_stream: false,
        }
    }
}

/// Which inference endpoint a request reached.
#[derive(Debug, Clone, Copy, PartialEq, Eq, Structural)]
pub enum MockEndpoint {
    Generate,
    Chat,
    Embed,
}

/// How the mock answers an inference request.
#[derive(Debug)]
pub enum MockReply {
    /// An error status with an empty body.
    Status(u16),
    /// The configured stream chunks, one per line, as NDJSON.
    Stream,
    /// A JSON body.
    Json(String),
}

/// Whether a raw request body asks for streaming, as the mock reads it.
pub open spec fn asks_stream(body: Seq<char>) -> bool {
    contains_text(body, "\"stream\":true"@) || contains_text(body, "\"stream\": true"@)
}

/// The status the mock answers for a configured error status: the status
/// itself when it is a valid HTTP status code (100 to 999), else 500.
pub open spec fn error_reply_status(status: u16) -> u16 {
    if 100 <= status && status <= 999 {
        status
    } else {
        500
    }
}

/// Mock Ollama server builder.
#[derive(Debug)]
pub struct MockOllama {
    config: MockConfig,
}

impl MockOllama {
    /// The configuration the mock answers with.
    pub closed spec fn spec_config(&self) -> MockConfig {
        self.config
    }

    /// Create a mock server with the given configuration.
    pub fn new(config: MockConfig) -> (r: MockOllama)
        ensures
            r.spec_config() == config,
    {
        MockOllama { config }
    }

    /// The configuration the mock answers with.
    pub fn config(&self) -> (r: &MockConfig)
        ensures
            *r == self.spec_config(),
    {
        &self.config
    }

    /// How the mock answers a request to an inference endpoint: the
    /// configured error status if any (embeddings always fail with 500
    /// then), else a stream when the body asks for one on generate and
    /// chat, else the configured answer.
    pub fn reply(&self, endpoint: MockEndpoint, body: &str) -> (r: MockReply)
        ensures
            match self.spec_config().error_status {
                Some(s) => r matches MockReply::Status(code) && code == (if endpoint == MockEndpoint::Embed {
                    500
                } else {
                    error_reply_status(s)
                }),
                None => match endpoint {
                    MockEndpoint::Embed => r matches MockReply::Json(b) && b@
                        == "{\"embedding\":[0.1,0.2,0.3]}"@,
                    MockEndpoint::Generate => if asks_stream(body@) {
                        r is Stream
                    } else {
                        r matches MockReply::Json(b) && b@ == self.spec_config().generate_response@
                    },
                    MockEndpoint::Chat => if asks_stream(body@) {
                        r is Stream
                    } else {
                        r matches MockReply::Json(b) && b@ == self.spec_config().chat_response@
                    },
                },
            },
    {
        if let Some(s) = self.config.error_status {
            if endpoint == MockEndpoint::Embed {
                return MockReply::Status(500);
            }
            if 100 <= s && s <= 999 {
                return MockReply::Status(s);
            }
            return MockReply::Status(500);
        }
        match endpoint {
            MockEndpoint::Embed => MockReply::Json("{\"embedding\":[0.1,0.2,0.3]}".to_owned()),
            MockEndpoint::Generate => {
                if text_contains(body, "\"stream\":true") || text_contains(body, "\"stream\": true") {
                    MockReply::Stream
                } else {
                    MockReply::Json(self.config.generate_response.clone())
                }
            },
            MockEndpoint::Chat => {
                if text_contains(body, "\"stream\":true") || text_contains(body, "\"stream\": true") {
                    MockReply::Stream
                } else {
                    MockReply::Json(self.config.chat_response.clone())
                }
            },
        }
    }
}

} // verus!
