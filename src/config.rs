use crate::discord::{from_url_outcome, DiscordWebhookAuth, DiscordWebhookAuthUrlError};
use vstd::prelude::*;

verus! {

/// Discord section of the configuration: a webhook URL, or its id and token.
pub struct DiscordConfig {
    webhook_url: Option<String>,
    webhook_id: Option<u64>,
    webhook_token: Option<String>,
}

/// Why the Discord section does not name a webhook.
#[derive(Debug)]
pub enum DiscordConfigError {
    NeitherUrlNorPartsSpecified,
    ConfigMissingWebhookId,
    ConfigMissingWebhookToken,
    InvalidParamCombination,
    UrlError(DiscordWebhookAuthUrlError),
}

impl DiscordConfig {
    /// Makes the section from its three optional fields.
    pub fn new(webhook_url: Option<String>, webhook_id: Option<u64>, webhook_token: Option<String>) -> (r: Self)
        ensures
            r.url() == webhook_url,
            r.id() == webhook_id,
            r.token() == webhook_token,
    {
        Self { webhook_url, webhook_id, webhook_token }
    }

    pub closed spec fn url(&self) -> Option<String> {
        self.webhook_url
    }

    pub closed spec fn id(&self) -> Option<u64> {
        self.webhook_id
    }

    pub closed spec fn token(&self) -> Option<String> {
        self.webhook_token
    }

    /// Resolves the webhook identity. Only two shapes name one: a URL alone, or an
    /// id together with a token; every other shape is an error of its own.
    pub fn get_auth(&self) -> (r: Result<DiscordWebhookAuth, DiscordConfigError>)
        ensures
            match (self.url(), self.id(), self.token()) {
                (None, None, None) => r == Err::<DiscordWebhookAuth, _>(
                    DiscordConfigError::NeitherUrlNorPartsSpecified,
                ),
                (None, None, Some(_)) => r == Err::<DiscordWebhookAuth, _>(
                    DiscordConfigError::ConfigMissingWebhookId,
                ),
                (None, Some(_), None) => r == Err::<DiscordWebhookAuth, _>(
                    DiscordConfigError::ConfigMissingWebhookToken,
                ),
                (None, Some(id), Some(token)) => r is Ok && r->Ok_0.id == id && r->Ok_0.token@
                    == token@,
                (Some(url), None, None) => match r {
                    Ok(a) => from_url_outcome(url@, Ok(a)),
                    Err(DiscordConfigError::UrlError(e)) => from_url_outcome(url@, Err(e)),
                    Err(_) => false,
                },
                (Some(_), _, _) => r == Err::<DiscordWebhookAuth, _>(
                    DiscordConfigError::InvalidParamCombination,
                ),
            },
    {
        match (&self.webhook_url, &self.webhook_id, &self.webhook_token) {
            (None, None, None) => Err(DiscordConfigError::NeitherUrlNorPartsSpecified),
            (None, None, Some(_)) => Err(DiscordConfigError::ConfigMissingWebhookId),
            (None, Some(_), None) => Err(DiscordConfigError::ConfigMissingWebhookToken),
            (None, Some(id), Some(token)) => Ok(DiscordWebhookAuth::new(*id, token.clone())),
            (Some(url), None, None) => match DiscordWebhookAuth::from_url(url.as_str()) {
                Ok(a) => Ok(a),
                Err(e) => Err(DiscordConfigError::UrlError(e)),
            },
            (Some(_), _, _) => Err(DiscordConfigError::InvalidParamCombination),
        }
    }
}

} // verus!
