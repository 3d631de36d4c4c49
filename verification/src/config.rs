//! Server configuration: the API key, the directory for saved images, and custom styles.
use crate::text::{concat, owned, push_str};
use vstd::prelude::*;

verus! {

/// A custom style as written in the configuration file.
pub struct StyleConfig {
    pub name: String,
    pub description: String,
    pub template: String,
}

impl View for StyleConfig {
    type V = (Seq<char>, Seq<char>, Seq<char>);

    open spec fn view(&self) -> Self::V {
        (self.name@, self.description@, self.template@)
    }
}

/// The server configuration.
pub struct Config {
    pub api_key: String,
    pub save_dir: String,
    pub styles: Vec<StyleConfig>,
}

/// Directory for saved images when the configuration names none.
pub open spec fn default_save_dir_spec() -> Seq<char> {
    "/tmp/grok-images"@
}

/// The directory for saved images when the configuration names none.
pub fn default_save_dir() -> (r: String)
    ensures
        r@ == default_save_dir_spec(),
{
    owned("/tmp/grok-images")
}

/// A configuration that holds only `api_key`, with the default directory and no
/// custom styles (the configuration taken from the environment).
pub fn config_from_api_key(api_key: String) -> (c: Config)
    ensures
        c.api_key == api_key,
        c.save_dir@ == default_save_dir_spec(),
        c.styles@.len() == 0,
{
    Config { api_key, save_dir: default_save_dir(), styles: Vec::new() }
}

/// The message given when neither the file at `path` nor the environment holds a key.
pub open spec fn no_config_message(path: Seq<char>) -> Seq<char> {
    "No config found. Either:\n1. Create "@ + path
        + " with:\n\napi_key = \"xai-...\"\nsave_dir = \"/tmp/grok-images\"  # optional\n\n2. Or set the XAI_API_KEY environment variable."@
}

/// Chooses the configuration from its two sources.
///
/// `file` is `None` when the file at `path` could not be read, and otherwise the
/// outcome of parsing it (the parser's message on failure); `env_api_key` is the
/// `XAI_API_KEY` variable when it is set.  The file wins over the environment.
pub fn select_config(path: &str, file: Option<Result<Config, String>>, env_api_key: Option<String>) -> (r:
    Result<Config, String>)
    ensures
        match file {
            Some(Ok(c)) => r == Ok::<Config, String>(c),
            Some(Err(e)) => r matches Err(m) && m@ == "Failed to parse "@ + path@ + ": "@ + e@,
            None => match env_api_key {
                Some(k) => r matches Ok(c) && c.api_key == k && c.save_dir@ == default_save_dir_spec()
                    && c.styles@.len() == 0,
                None => r matches Err(m) && m@ == no_config_message(path@),
            },
        },
{
    match file {
        Some(Ok(c)) => Ok(c),
        Some(Err(e)) => {
            let mut m = concat("Failed to parse ", path);
            push_str(&mut m, ": ");
            push_str(&mut m, e.as_str());
            Err(m)
        },
        None => match env_api_key {
            Some(k) => Ok(config_from_api_key(k)),
            None => {
                let mut m = concat("No config found. Either:\n1. Create ", path);
                push_str(
                    &mut m,
                    " with:\n\napi_key = \"xai-...\"\nsave_dir = \"/tmp/grok-images\"  # optional\n\n2. Or set the XAI_API_KEY environment variable.",
                );
                Err(m)
            },
        },
    }
}

} // verus!
