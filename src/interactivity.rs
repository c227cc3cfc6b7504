//! What a component does when clicked, hovered or shift-clicked.
use vstd::prelude::*;
use crate::format::or_else;
use crate::text::{copy_opt_string, copy_string, opt_view, owned};
use crate::{ComponentModel, TextComponent, component_view};

verus! {

/// Interaction overlay: chat insertion, click event and hover event, each optional.
#[derive(Debug)]
pub struct Interactivity {
    pub insertion: Option<String>,
    pub click: Option<ClickEvent>,
    pub hover: Option<HoverEvent>,
}

/// The mathematical value of an [Interactivity].
pub struct InteractivityModel {
    pub insertion: Option<Seq<char>>,
    pub click: Option<ClickModel>,
    pub hover: Option<HoverModel>,
}

/// What a click on the text triggers.
#[derive(Debug)]
pub enum ClickEvent {
    OpenUrl { url: String },
    OpenFile { path: String },
    RunCommand { command: String },
    SuggestCommand { command: String },
    ChangePage { page: u32 },
    CopyToClipboard { value: String },
    ShowDialog { dialog: String },
    Custom { id: String, payload: Option<String> },
}

/// The mathematical value of a [ClickEvent].
pub enum ClickModel {
    OpenUrl { url: Seq<char> },
    OpenFile { path: Seq<char> },
    RunCommand { command: Seq<char> },
    SuggestCommand { command: Seq<char> },
    ChangePage { page: u32 },
    CopyToClipboard { value: Seq<char> },
    ShowDialog { dialog: Seq<char> },
    Custom { id: Seq<char>, payload: Option<Seq<char>> },
}

/// What hovering the text shows.
#[derive(Debug)]
pub enum HoverEvent {
    ShowText { value: Box<TextComponent> },
    ShowItem { id: String, count: Option<i32>, components: Option<String> },
    ShowEntity { name: Option<String>, id: String, uuid: [i32; 4] },
}

/// The mathematical value of a [HoverEvent].
pub enum HoverModel {
    ShowText { value: Box<ComponentModel> },
    ShowItem { id: Seq<char>, count: Option<i32>, components: Option<Seq<char>> },
    ShowEntity { name: Option<Seq<char>>, id: Seq<char>, uuid: [i32; 4] },
}

impl View for ClickEvent {
    type V = ClickModel;

    open spec fn view(&self) -> ClickModel {
        match self {
            ClickEvent::OpenUrl { url } => ClickModel::OpenUrl { url: url@ },
            ClickEvent::OpenFile { path } => ClickModel::OpenFile { path: path@ },
            ClickEvent::RunCommand { command } => ClickModel::RunCommand { command: command@ },
            ClickEvent::SuggestCommand { command } => ClickModel::SuggestCommand { command: command@ },
            ClickEvent::ChangePage { page } => ClickModel::ChangePage { page: *page },
            ClickEvent::CopyToClipboard { value } => ClickModel::CopyToClipboard { value: value@ },
            ClickEvent::ShowDialog { dialog } => ClickModel::ShowDialog { dialog: dialog@ },
            ClickEvent::Custom { id, payload } => ClickModel::Custom { id: id@, payload: opt_view(*payload) },
        }
    }
}

/// The model of a hover event.
pub open spec fn hover_view(h: HoverEvent) -> HoverModel
    decreases h,
{
    match h {
        HoverEvent::ShowText { value } => HoverModel::ShowText { value: Box::new(component_view(*value)) },
        HoverEvent::ShowItem { id, count, components } => HoverModel::ShowItem {
            id: id@,
            count,
            components: opt_view(components),
        },
        HoverEvent::ShowEntity { name, id, uuid } => HoverModel::ShowEntity { name: opt_view(name), id: id@, uuid },
    }
}

/// The model of an interaction overlay.
pub open spec fn interactivity_view(i: Interactivity) -> InteractivityModel
    decreases i,
{
    InteractivityModel {
        insertion: opt_view(i.insertion),
        click: match i.click {
            Some(c) => Some(c@),
            None => None,
        },
        hover: match i.hover {
            Some(h) => Some(hover_view(h)),
            None => None,
        },
    }
}

impl View for HoverEvent {
    type V = HoverModel;

    open spec fn view(&self) -> HoverModel {
        hover_view(*self)
    }
}

impl View for Interactivity {
    type V = InteractivityModel;

    open spec fn view(&self) -> InteractivityModel {
        interactivity_view(*self)
    }
}

/// The overlay with nothing set.
pub open spec fn empty_interactions() -> InteractivityModel {
    InteractivityModel { insertion: None, click: None, hover: None }
}

/// Field-wise merge: each field of `a` when set, else that of `b`.
pub open spec fn mix_interactions(a: InteractivityModel, b: InteractivityModel) -> InteractivityModel {
    InteractivityModel {
        insertion: or_else(a.insertion, b.insertion),
        click: or_else(a.click, b.click),
        hover: or_else(a.hover, b.hover),
    }
}

impl Default for Interactivity {
    fn default() -> (r: Interactivity)
        ensures
            r@ == empty_interactions(),
    {
        Interactivity::new()
    }
}

impl Interactivity {
    /// An overlay with nothing set.
    pub fn new() -> (r: Interactivity)
        ensures
            r@ == empty_interactions(),
    {
        Interactivity { insertion: None, click: None, hover: None }
    }

    /// Fills each unset field of `self` from `other`.
    pub fn mix(&mut self, other: Self)
        ensures
            final(self)@ == mix_interactions(old(self)@, other@),
    {
        let Interactivity { insertion, click, hover } = other;
        if self.insertion.is_none() && insertion.is_some() {
            self.insertion = insertion;
        }
        if self.click.is_none() && click.is_some() {
            self.click = click;
        }
        if self.hover.is_none() && hover.is_some() {
            self.hover = hover;
        }
    }

    /// Whether nothing is set.
    pub fn is_none(&self) -> (r: bool)
        ensures
            r == (self@ == empty_interactions()),
    {
        self.insertion.is_none() && self.click.is_none() && self.hover.is_none()
    }

    /// A copy of this overlay.
    pub fn copy(&self) -> (r: Interactivity)
        ensures
            r@ == self@,
        decreases self,
    {
        Interactivity {
            insertion: copy_opt_string(&self.insertion),
            click: match &self.click {
                Some(c) => Some(c.copy()),
                None => None,
            },
            hover: match &self.hover {
                Some(h) => Some(h.copy()),
                None => None,
            },
        }
    }
}

impl ClickEvent {
    /// Opens a URL.
    pub fn open_url(url: &str) -> (r: ClickEvent)
        ensures
            r@ == (ClickModel::OpenUrl { url: url@ }),
    {
        ClickEvent::OpenUrl { url: owned(url) }
    }

    /// Opens a file.
    pub fn open_file(path: &str) -> (r: ClickEvent)
        ensures
            r@ == (ClickModel::OpenFile { path: path@ }),
    {
        ClickEvent::OpenFile { path: owned(path) }
    }

    /// Runs a command.
    pub fn run_command(command: &str) -> (r: ClickEvent)
        ensures
            r@ == (ClickModel::RunCommand { command: command@ }),
    {
        ClickEvent::RunCommand { command: owned(command) }
    }

    /// Replaces the chat input with a command.
    pub fn suggest_command(command: &str) -> (r: ClickEvent)
        ensures
            r@ == (ClickModel::SuggestCommand { command: command@ }),
    {
        ClickEvent::SuggestCommand { command: owned(command) }
    }

    /// Turns a book to a page.
    pub fn change_page(page: u32) -> (r: ClickEvent)
        ensures
            r@ == (ClickModel::ChangePage { page }),
    {
        ClickEvent::ChangePage { page }
    }

    /// Copies a value to the clipboard.
    pub fn copy_to_clipboard(value: &str) -> (r: ClickEvent)
        ensures
            r@ == (ClickModel::CopyToClipboard { value: value@ }),
    {
        ClickEvent::CopyToClipboard { value: owned(value) }
    }

    /// Shows a dialog, given by id or definition.
    pub fn show_dialog(dialog: &str) -> (r: ClickEvent)
        ensures
            r@ == (ClickModel::ShowDialog { dialog: dialog@ }),
    {
        ClickEvent::ShowDialog { dialog: owned(dialog) }
    }

    /// A copy of this event.
    pub fn copy(&self) -> (r: ClickEvent)
        ensures
            r@ == self@,
    {
        match self {
            ClickEvent::OpenUrl { url } => ClickEvent::OpenUrl { url: copy_string(url) },
            ClickEvent::OpenFile { path } => ClickEvent::OpenFile { path: copy_string(path) },
            ClickEvent::RunCommand { command } => ClickEvent::RunCommand { command: copy_string(command) },
            ClickEvent::SuggestCommand { command } => ClickEvent::SuggestCommand { command: copy_string(command) },
            ClickEvent::ChangePage { page } => ClickEvent::ChangePage { page: *page },
            ClickEvent::CopyToClipboard { value } => ClickEvent::CopyToClipboard { value: copy_string(value) },
            ClickEvent::ShowDialog { dialog } => ClickEvent::ShowDialog { dialog: copy_string(dialog) },
            ClickEvent::Custom { id, payload } => ClickEvent::Custom { id: copy_string(id), payload: copy_opt_string(payload) },
        }
    }
}

impl HoverEvent {
    /// Shows a text component.
    pub fn show_text(text: TextComponent) -> (r: HoverEvent)
        ensures
            r@ == (HoverModel::ShowText { value: Box::new(text@) }),
    {
        HoverEvent::ShowText { value: Box::new(text) }
    }

    /// Shows an item, with an optional count and stringified components.
    pub fn show_item(id: &str, count: Option<i32>, components: Option<&str>) -> (r: HoverEvent)
        ensures
            r@ == (HoverModel::ShowItem {
                id: id@,
                count,
                components: match components { Some(c) => Some(c@), None => None },
            }),
    {
        HoverEvent::ShowItem {
            id: owned(id),
            count,
            components: match components {
                Some(c) => Some(owned(c)),
                None => None,
            },
        }
    }

    /// Shows an entity of a type, with its uuid and an optional name.
    pub fn show_entity(id: &str, uuid: [i32; 4], name: Option<&str>) -> (r: HoverEvent)
        ensures
            r@ == (HoverModel::ShowEntity {
                name: match name { Some(n) => Some(n@), None => None },
                id: id@,
                uuid,
            }),
    {
        HoverEvent::ShowEntity {
            name: match name {
                Some(n) => Some(owned(n)),
                None => None,
            },
            id: owned(id),
            uuid,
        }
    }

    /// A copy of this event.
    pub fn copy(&self) -> (r: HoverEvent)
        ensures
            r@ == self@,
        decreases self,
    {
        match self {
            HoverEvent::ShowText { value } => HoverEvent::ShowText { value: Box::new(value.copy()) },
            HoverEvent::ShowItem { id, count, components } => HoverEvent::ShowItem {
                id: copy_string(id),
                count: *count,
                components: copy_opt_string(components),
            },
            HoverEvent::ShowEntity { name, id, uuid } => HoverEvent::ShowEntity {
                name: copy_opt_string(name),
                id: copy_string(id),
                uuid: *uuid,
            },
        }
    }
}

} // verus!
