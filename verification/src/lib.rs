//! Maps credentials to the identity behind them and the blast radius they carry.

pub mod airtable;
pub mod algolia;
pub mod alibaba;
pub mod anthropic;
pub mod artifactory;
pub mod asana;
pub mod auth0;
pub mod aws;
pub mod azure;
pub mod azure_devops;
pub mod bitbucket;
pub mod buildkite;
pub mod circleci;
pub mod credential_file;
pub mod digitalocean;
pub mod encoding;
pub mod fastly;
pub mod gcp;
pub mod gitea;
pub mod github;
pub mod gitlab;
pub mod harness;
pub mod hubspot;
pub mod huggingface;
pub mod ibm_cloud;
pub mod jira;
pub mod json;
pub mod keyed;
pub mod mapping;
pub mod microsoft_teams;
pub mod model;
pub mod monday;
pub mod mongodb;
pub mod mysql;
pub mod notes;
pub mod openai;
pub mod order;
pub mod paging;
pub mod permissions;
pub mod text;
pub mod time;
pub mod url;
pub mod wildcard;
pub mod xml;
