pub mod bridge_laws;
pub mod client;
pub mod conversation_manager;
pub mod driver;
pub mod driver_laws;
pub mod gemini;
pub mod gemini_driver;
pub mod gemini_models;
pub mod gemini_run;
pub mod gemini_session;
pub mod gemini_stream;
pub mod headers;
pub mod history_laws;
pub mod json;
pub mod lists;
pub mod manager_laws;
pub mod openai_driver;
pub mod order;
pub mod plan;
pub mod plan_tool;
pub mod protocol;
pub mod request_laws;
pub mod scan_laws;
pub mod search_laws;
pub mod session_page;
pub mod session_scan;
pub mod session_search;
pub mod stream_laws;
pub mod text;
pub mod text_laws;
pub mod view_laws;
pub mod ws;
