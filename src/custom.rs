//! Content whose rendering a registry supplies at resolution time.
use vstd::prelude::*;
use crate::text::copy_string;
use crate::TextComponent;

verus! {

/// Extra data carried by custom content.
#[derive(Clone, Copy, Debug, PartialEq, Eq, Structural)]
pub enum Payload {
    Empty,
}

impl Payload {
    /// Whether the payload carries nothing.
    pub fn is_empty(&self) -> (r: bool)
        ensures
            r == (*self == Payload::Empty),
    {
        match self {
            Payload::Empty => true,
        }
    }
}

/// A reference to content of a custom registry: its id and payload.
#[derive(Debug)]
pub struct CustomData {
    pub id: String,
    pub payload: Payload,
}

/// The mathematical value of a [CustomData].
pub struct CustomModel {
    pub id: Seq<char>,
    pub payload: Payload,
}

impl View for CustomData {
    type V = CustomModel;

    open spec fn view(&self) -> CustomModel {
        CustomModel { id: self.id@, payload: self.payload }
    }
}

impl CustomData {
    /// A copy of this reference.
    pub fn copy(&self) -> (r: CustomData)
        ensures
            r@ == self@,
    {
        CustomData { id: copy_string(&self.id), payload: self.payload }
    }
}

/// A registry of custom content kinds, implemented by the host.
pub trait CustomRegistry {
    /// What the registry hands to content when it renders.
    type Data;

    /// Registers a kind of custom content under `id`.
    fn register_content<T: CustomContent<Data = Self::Data>>(&mut self, id: &'static str, content: T);
}

/// A kind of custom content, implemented by the host.
pub trait CustomContent {
    /// What the registry hands to this content when it renders.
    type Data;

    /// The reference that stands for this content in a component.
    fn as_data(&self) -> CustomData;

    /// Renders this content from the registry's data and the payload.
    fn resolve(&self, data: Self::Data, payload: Payload) -> TextComponent;
}

} // verus!
