//! Google Cloud: API keys and what they are accepted for.

pub mod api_key;
