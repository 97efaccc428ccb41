//! Builders for the body of a request that sends a message: each call sets
//! one field of a JSON object.

use vstd::prelude::*;
use crate::json::{fields_of, json_flag, json_object, json_text, Fields, Json};

verus! {

/// The fields of an embed, as set so far.
pub struct CreateEmbed(pub serde_json::Map<String, serde_json::Value>);

impl View for CreateEmbed {
    type V = Fields;

    /// The fields set so far: what stands under each key.
    open spec fn view(&self) -> Fields {
        fields_of(self.0)
    }
}

impl Default for CreateEmbed {
    /// An embed with no field set.
    fn default() -> (embed: CreateEmbed)
        ensures
            embed@ == Fields::empty(),
    {
        CreateEmbed(serde_json::Map::new())
    }
}

/// The fields of a message to send, as set so far.
///
/// A message with an embed needs no other field; one without needs its
/// content.
pub struct CreateMessage(pub serde_json::Map<String, serde_json::Value>);

impl View for CreateMessage {
    type V = Fields;

    /// The fields set so far: what stands under each key.
    open spec fn view(&self) -> Fields {
        fields_of(self.0)
    }
}

impl CreateMessage {
    /// Sets the content of the message, in place of any set before.
    pub fn content(self, content: &str) -> (message: Self)
        ensures
            message@ == self@.insert("content"@, Json::Text(content@)),
    {
        let mut fields = self.0;
        fields.insert("content".to_owned(), json_text(content));
        CreateMessage(fields)
    }

    /// Sets the embed of the message to what `f` makes of an embed with no
    /// field set, in place of any set before.
    pub fn embed<F>(self, f: F) -> (message: Self) where F: FnOnce(CreateEmbed) -> CreateEmbed
        requires
            forall|blank: CreateEmbed|
                blank@ == Fields::empty() ==> f.requires((blank,)),
        ensures
            exists|blank: CreateEmbed, embed: CreateEmbed|
                {
                    &&& blank@ == Fields::empty()
                    &&& f.ensures((blank,), embed)
                    &&& message@ == self@.insert("embed"@, Json::Object(embed@))
                },
    {
        let blank = CreateEmbed::default();
        let embed = f(blank);
        let mut fields = self.0;
        fields.insert("embed".to_owned(), json_object(embed.0));
        CreateMessage(fields)
    }

    /// Sets the nonce, by which a sent message is recognised again, in place
    /// of any set before.
    pub fn nonce(self, nonce: &str) -> (message: Self)
        ensures
            message@ == self@.insert("nonce"@, Json::Text(nonce@)),
    {
        let mut fields = self.0;
        fields.insert("nonce".to_owned(), json_text(nonce));
        CreateMessage(fields)
    }

    /// Sets whether the message is read out by text-to-speech.
    pub fn tts(self, tts: bool) -> (message: Self)
        ensures
            message@ == self@.insert("tts"@, Json::Flag(tts)),
    {
        let mut fields = self.0;
        fields.insert("tts".to_owned(), json_flag(tts));
        CreateMessage(fields)
    }
}

impl Default for CreateMessage {
    /// A message with no field set but `tts`, which is `false`.
    fn default() -> (message: CreateMessage)
        ensures
            message@ == Fields::empty().insert("tts"@, Json::Flag(false)),
    {
        let mut fields = serde_json::Map::new();
        fields.insert("tts".to_owned(), json_flag(false));
        CreateMessage(fields)
    }
}

} // verus!
