//! The cheat code list and its selection.

use crate::apps::{CheatCodeApp, CodeStruct, Region};
use vstd::prelude::*;

verus! {

/// A cheat code as a mathematical value.
pub struct CodeView {
    pub name: Seq<char>,
    pub ntsc: Seq<char>,
    pub pal: Seq<char>,
    pub jp: Seq<char>,
    pub kor: Seq<char>,
}

impl CodeView {
    /// The code with no name and no text.
    pub open spec fn empty() -> CodeView {
        CodeView {
            name: Seq::empty(),
            ntsc: Seq::empty(),
            pal: Seq::empty(),
            jp: Seq::empty(),
            kor: Seq::empty(),
        }
    }
}

impl View for CodeStruct {
    type V = CodeView;

    open spec fn view(&self) -> CodeView {
        CodeView {
            name: self.name@,
            ntsc: self.code_ntsc@,
            pal: self.code_pal@,
            jp: self.code_jp@,
            kor: self.code_kor@,
        }
    }
}

impl Default for CodeStruct {
    fn default() -> (r: CodeStruct)
        ensures
            r@ == CodeView::empty(),
    {
        CodeStruct {
            name: String::new(),
            code_ntsc: String::new(),
            code_pal: String::new(),
            code_jp: String::new(),
            code_kor: String::new(),
        }
    }
}

impl CodeStruct {
    /// The text of the code for `region`.
    pub fn text(&self, region: Region) -> (text: &String)
        ensures
            text@ == (match region {
                Region::NTSC => self@.ntsc,
                Region::PAL => self@.pal,
                Region::JAP => self@.jp,
                Region::KOR => self@.kor,
            }),
    {
        match region {
            Region::NTSC => &self.code_ntsc,
            Region::PAL => &self.code_pal,
            Region::JAP => &self.code_jp,
            Region::KOR => &self.code_kor,
        }
    }
}

/// The codes as mathematical values.
pub open spec fn code_views(codes: Seq<CodeStruct>) -> Seq<CodeView> {
    codes.map_values(|c: CodeStruct| c@)
}

impl View for CheatCodeApp {
    type V = Seq<CodeView>;

    /// The codes of the list, in order.
    open spec fn view(&self) -> Seq<CodeView> {
        code_views(self.codes@)
    }
}

impl Default for CheatCodeApp {
    fn default() -> (r: CheatCodeApp)
        ensures
            r.wf(),
            !r.enabled,
            r.selected_code == 0,
            r.selected_region == Region::NTSC,
            r.codes@.len() == 1,
            r@ == seq![CodeView::empty()],
    {
        let mut codes: Vec<CodeStruct> = Vec::new();
        codes.push(CodeStruct::default());
        let r = CheatCodeApp {
            enabled: false,
            selected_code: 0,
            selected_region: Region::NTSC,
            codes,
        };
        assert(r@ =~= seq![CodeView::empty()]);
        r
    }
}

impl CheatCodeApp {
    /// The list holds at least one code and the selection is one of them.
    pub open spec fn wf(&self) -> bool {
        self.codes@.len() >= 1 && self.selected_code < self.codes@.len()
    }

    /// Whether the list is well formed.
    pub fn is_well_formed(&self) -> (r: bool)
        ensures
            r == self.wf(),
    {
        self.codes.len() >= 1 && self.selected_code < self.codes.len()
    }

    /// Whether cheat codes are switched on.
    pub fn enabled(&self) -> (on: bool)
        ensures
            on == self.enabled,
    {
        self.enabled
    }

    /// Adds an empty code at the end of the list.
    pub fn add_code(&mut self)
        ensures
            final(self)@ == old(self)@.push(CodeView::empty()),
            final(self).codes@.len() == old(self).codes@.len() + 1,
            final(self).codes@.subrange(0, old(self).codes@.len() as int) == old(self).codes@,
            final(self).enabled == old(self).enabled,
            final(self).selected_code == old(self).selected_code,
            final(self).selected_region == old(self).selected_region,
            old(self).wf() ==> final(self).wf(),
    {
        self.codes.push(CodeStruct::default());
        assert(self@ =~= old(self)@.push(CodeView::empty()));
        assert(self.codes@.subrange(0, old(self).codes@.len() as int) =~= old(self).codes@);
    }

    /// Removes the selected code and moves the selection one up, unless it
    /// was the first. The last code of the list is never removed.
    pub fn delete_selected(&mut self)
        requires
            old(self).wf(),
        ensures
            final(self).wf(),
            final(self).enabled == old(self).enabled,
            final(self).selected_region == old(self).selected_region,
            old(self).codes@.len() <= 1 ==> *final(self) == *old(self),
            old(self).codes@.len() > 1 ==> {
                &&& final(self).codes@ == old(self).codes@.remove(old(self).selected_code as int)
                &&& final(self).selected_code == (if old(self).selected_code == 0 {
                    0
                } else {
                    old(self).selected_code - 1
                })
            },
    {
        if self.codes.len() <= 1 {
            return ;
        }
        let selected: usize = self.selected_code;
        if selected > 0 {
            self.selected_code = selected - 1;
        }
        self.codes.remove(selected);
    }

    /// Selects the code at `index`. An index outside the list changes
    /// nothing.
    pub fn select(&mut self, index: usize)
        ensures
            final(self).selected_code == (if index < old(self).codes@.len() {
                index
            } else {
                old(self).selected_code
            }),
            final(self).codes == old(self).codes,
            final(self).enabled == old(self).enabled,
            final(self).selected_region == old(self).selected_region,
            old(self).wf() ==> final(self).wf(),
    {
        if index < self.codes.len() {
            self.selected_code = index;
        }
    }
}

} // verus!
