//! The audio picker window: what it shows, what is selected, and what each
//! event of the window leads to.

use vstd::prelude::*;
use crate::source::{Source, SourceView, views};

verus! {

/// What happens to the picker.
pub enum PickerEvent {
    /// A controller app asked for audio.
    OpenPicker,
    /// The window is open.
    WindowOpened,
    /// The sources to offer were read.
    SourcesLoaded(Vec<Source>),
    /// The listener chose a source.
    SelectionChanged(Source),
    /// The listener confirmed.
    Submit,
}

/// What is to be done after an event.
pub enum PickerAction {
    /// Open the picker's window.
    OpenWindow,
    /// Read the sources to offer.
    LoadSources,
    /// Nothing.
    Nothing,
    /// Send the chosen source, or that none was chosen, and close the window.
    Finish(Option<Source>),
}

pub open spec fn opt_view(s: Option<Source>) -> Option<SourceView> {
    match s {
        Some(x) => Some(x@),
        None => None,
    }
}

/// The picker's state: the sources it offers and the one selected.
pub struct Picker {
    sources: Vec<Source>,
    selected: Option<Source>,
}

impl Picker {
    pub closed spec fn offered(&self) -> Seq<SourceView> {
        views(self.sources@)
    }

    pub closed spec fn chosen(&self) -> Option<SourceView> {
        opt_view(self.selected)
    }

    /// A picker that offers nothing and has nothing selected.
    pub fn new() -> (r: Self)
        ensures
            r.offered() == Seq::<SourceView>::empty(),
            r.chosen() == None::<SourceView>,
    {
        let r = Picker { sources: Vec::new(), selected: None };
        assert(r.offered() =~= Seq::<SourceView>::empty());
        r
    }

    /// The sources on offer.
    pub fn sources(&self) -> (r: &Vec<Source>)
        ensures
            views(r@) == self.offered(),
    {
        &self.sources
    }

    /// The selected source.
    pub fn selected(&self) -> (r: &Option<Source>)
        ensures
            opt_view(*r) == self.chosen(),
    {
        &self.selected
    }

    /// Takes in one event: loaded sources replace those on offer and the
    /// first of them is selected; a choice becomes the selection; a
    /// confirmation hands over the selection.
    pub fn update(&mut self, event: PickerEvent) -> (r: PickerAction)
        ensures
            match event {
                PickerEvent::OpenPicker => r is OpenWindow && final(self).offered() == old(self).offered()
                    && final(self).chosen() == old(self).chosen(),
                PickerEvent::WindowOpened => r is LoadSources && final(self).offered() == old(self).offered()
                    && final(self).chosen() == old(self).chosen(),
                PickerEvent::SourcesLoaded(v) => r is Nothing && final(self).offered() == views(v@)
                    && final(self).chosen() == (if v@.len() > 0 {
                        Some(v@[0]@)
                    } else {
                        None
                    }),
                PickerEvent::SelectionChanged(s) => r is Nothing && final(self).offered() == old(self).offered()
                    && final(self).chosen() == Some(s@),
                PickerEvent::Submit => final(self).offered() == old(self).offered()
                    && final(self).chosen() == old(self).chosen() && match r {
                        PickerAction::Finish(s) => opt_view(s) == old(self).chosen(),
                        _ => false,
                    },
            },
    {
        match event {
            PickerEvent::OpenPicker => PickerAction::OpenWindow,
            PickerEvent::WindowOpened => PickerAction::LoadSources,
            PickerEvent::SourcesLoaded(v) => {
                self.selected = if v.len() > 0 {
                    Some(v[0].clone())
                } else {
                    None
                };
                self.sources = v;
                PickerAction::Nothing
            },
            PickerEvent::SelectionChanged(s) => {
                self.selected = Some(s);
                PickerAction::Nothing
            },
            PickerEvent::Submit => {
                let s = match &self.selected {
                    Some(x) => Some(x.clone()),
                    None => None,
                };
                PickerAction::Finish(s)
            },
        }
    }
}

} // verus!
