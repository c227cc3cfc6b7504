//! Translated messages: a key looked up by the resolver, with a fallback and arguments.
use vstd::prelude::*;
use crate::text::{copy_opt_string, copy_string, opt_view, owned};
use crate::{ComponentModel, TextComponent, copy_components, components_view};

verus! {

/// A message whose text is the template that the resolver gives for `key`.
#[derive(Debug)]
pub struct TranslatedMessage {
    pub key: String,
    pub fallback: Option<String>,
    pub args: Option<Vec<TextComponent>>,
}

/// The mathematical value of a [TranslatedMessage].
pub struct MessageModel {
    pub key: Seq<char>,
    pub fallback: Option<Seq<char>>,
    pub args: Option<Seq<ComponentModel>>,
}

/// The model of a translated message.
pub open spec fn message_view(m: TranslatedMessage) -> MessageModel
    decreases m,
{
    MessageModel {
        key: m.key@,
        fallback: opt_view(m.fallback),
        args: match m.args {
            Some(a) => Some(components_view(a)),
            None => None,
        },
    }
}

impl View for TranslatedMessage {
    type V = MessageModel;

    open spec fn view(&self) -> MessageModel {
        message_view(*self)
    }
}

impl TranslatedMessage {
    /// A message for `key` with the given arguments and no fallback.
    pub fn new(key: &str, args: Option<Vec<TextComponent>>) -> (r: TranslatedMessage)
        ensures
            r@ == (MessageModel {
                key: key@,
                fallback: None,
                args: match args { Some(a) => Some(components_view(a)), None => None },
            }),
    {
        TranslatedMessage { key: owned(key), fallback: None, args }
    }

    /// The component showing this message.
    pub fn component(self) -> (r: TextComponent)
        ensures
            r@ == crate::content_only(crate::content::ContentModel::Translate(self@)),
    {
        TextComponent::translated(self)
    }

    /// The component showing this message, with `fallback` shown when the key has no template.
    pub fn component_fallback(self, fallback: &str) -> (r: TextComponent)
        ensures
            r@ == crate::content_only(
                crate::content::ContentModel::Translate(MessageModel { fallback: Some(fallback@), ..self@ }),
            ),
    {
        let m = TranslatedMessage { fallback: Some(owned(fallback)), ..self };
        TextComponent::translated(m)
    }

    /// A copy of this message.
    pub fn copy(&self) -> (r: TranslatedMessage)
        ensures
            r@ == self@,
        decreases self,
    {
        TranslatedMessage {
            key: copy_string(&self.key),
            fallback: copy_opt_string(&self.fallback),
            args: match &self.args {
                Some(a) => Some(copy_components(a)),
                None => None,
            },
        }
    }
}

/// A translation key that takes `ARGS` arguments.
pub struct Translation<const ARGS: usize>(pub &'static str);

impl Translation<0> {
    /// The message of this key, without arguments.
    pub fn msg(&self) -> (r: TranslatedMessage)
        ensures
            r@ == (MessageModel { key: self.0@, fallback: None, args: None }),
    {
        TranslatedMessage::new(self.0, None)
    }
}

impl<const ARGS: usize> Translation<ARGS> {
    /// The message of this key with its arguments.
    pub fn message(self, args: Vec<TextComponent>) -> (r: TranslatedMessage)
        requires
            args@.len() == ARGS,
        ensures
            r@ == (MessageModel { key: self.0@, fallback: None, args: Some(components_view(args)) }),
    {
        TranslatedMessage::new(self.0, Some(args))
    }
}

} // verus!
