//! The cup roster: cups of four tracks each, with their icons.

use crate::apps::ids::Id;
use crate::text::{decimal_text, push_decimal};
use vstd::prelude::*;
use vstd::string::*;

verus! {

/// The roster: which stock cups come along, the cups, and the cup that the
/// editor shows.
#[derive(Debug, PartialEq, Eq, Clone)]
pub struct TrackDefinition {
    pub mode: CupSettings,
    pub selected: usize,
    pub cups: Vec<Cup>,
}

/// Which stock cups are part of the distribution.
#[derive(Debug, PartialEq, Eq, Structural, Clone, Copy)]
pub struct CupSettings {
    /// The cups of the game itself.
    pub nintendo: bool,
    /// The game's cups in the order of the game.
    pub nin_swap: bool,
    /// The random cup.
    pub wiimm_cup: bool,
}

/// A cup: a name, an icon and four tracks.
#[derive(Debug, PartialEq, Eq, Clone)]
pub struct Cup {
    pub icon: Icon,
    pub name: String,
    pub trackset: Vec<Track>,
}

/// A cup's icon: the name of the file it came from and the picture, already
/// encoded. Both empty means that the cup has no icon.
#[derive(Debug, PartialEq, Eq, Clone)]
pub struct Icon {
    pub filename: String,
    pub image: Vec<u8>,
}

/// A track of a cup.
#[derive(Debug, PartialEq, Eq, Clone)]
pub struct Track {
    /// Slot number, given when the cup is made and kept when cups move.
    pub id: usize,
    pub name: String,
    pub author: String,
    /// The course whose physics the track takes.
    pub property: Id,
    /// The course whose music the track takes.
    pub music: Id,
    /// Whether the track counts as new for the random cup.
    pub new: bool,
    pub flag: GroupFlag,
    /// Where the track's archive lies.
    pub filename: String,
}

/// A track's part in a group of tracks.
#[derive(Debug, PartialEq, Eq, Structural, Clone, Copy)]
pub enum GroupFlag {
    NoGroup,
    Header,
    Child,
}

/// How many tracks a cup has.
pub const TRACKS_PER_CUP: usize = 4;

impl GroupFlag {
    /// The byte that stands for the flag in a project file.
    pub open spec fn index(self) -> nat {
        match self {
            GroupFlag::NoGroup => 0,
            GroupFlag::Header => 1,
            GroupFlag::Child => 2,
        }
    }

    /// The flag that `n` stands for, if any.
    pub open spec fn at(n: nat) -> Option<GroupFlag> {
        if n == 0 {
            Some(GroupFlag::NoGroup)
        } else if n == 1 {
            Some(GroupFlag::Header)
        } else if n == 2 {
            Some(GroupFlag::Child)
        } else {
            None
        }
    }

    /// The byte that stands for the flag in a project file.
    pub fn to_u8(self) -> (b: u8)
        ensures
            b == self.index(),
            GroupFlag::at(b as nat) == Some(self),
    {
        match self {
            GroupFlag::NoGroup => 0,
            GroupFlag::Header => 1,
            GroupFlag::Child => 2,
        }
    }

    /// The flag that the byte `b` stands for, or `None` where it stands for
    /// none.
    pub fn from_u8(b: u8) -> (r: Option<GroupFlag>)
        ensures
            r == GroupFlag::at(b as nat),
    {
        match b {
            0 => Some(GroupFlag::NoGroup),
            1 => Some(GroupFlag::Header),
            2 => Some(GroupFlag::Child),
            _ => None,
        }
    }
}

impl CupSettings {
    /// The three switches packed into the low bits of a number: the game's
    /// cups count 1, their order 2 and the random cup 4.
    pub open spec fn bits(self) -> nat {
        ((if self.nintendo {
            1nat
        } else {
            0nat
        }) + (if self.nin_swap {
            2nat
        } else {
            0nat
        }) + (if self.wiimm_cup {
            4nat
        } else {
            0nat
        })) as nat
    }

    /// The switches whose packed form is `n`, for `n` below 8.
    pub open spec fn of_bits(n: nat) -> Option<CupSettings> {
        if n < 8 {
            Some(
                CupSettings {
                    nintendo: n % 2 == 1,
                    nin_swap: (n / 2) % 2 == 1,
                    wiimm_cup: n / 4 == 1,
                },
            )
        } else {
            None
        }
    }

    /// The switches packed into one byte.
    pub fn to_u8(self) -> (b: u8)
        ensures
            b == self.bits(),
            CupSettings::of_bits(b as nat) == Some(self),
    {
        let mut b: u8 = 0;
        if self.nintendo {
            b = b + 1;
        }
        if self.nin_swap {
            b = b + 2;
        }
        if self.wiimm_cup {
            b = b + 4;
        }
        b
    }

    /// The switches that the byte `b` packs, or `None` where a bit above
    /// the three is set.
    pub fn from_u8(b: u8) -> (r: Option<CupSettings>)
        ensures
            r == CupSettings::of_bits(b as nat),
    {
        if b < 8 {
            Some(
                CupSettings {
                    nintendo: b % 2 == 1,
                    nin_swap: (b / 2) % 2 == 1,
                    wiimm_cup: b / 4 == 1,
                },
            )
        } else {
            None
        }
    }
}

/// An icon as a mathematical value.
pub struct IconView {
    pub filename: Seq<char>,
    pub image: Seq<u8>,
}

/// A track as a mathematical value.
pub struct TrackView {
    pub id: usize,
    pub name: Seq<char>,
    pub author: Seq<char>,
    pub property: Id,
    pub music: Id,
    pub new: bool,
    pub flag: GroupFlag,
    pub filename: Seq<char>,
}

/// A cup as a mathematical value.
pub struct CupView {
    pub name: Seq<char>,
    pub icon: IconView,
    pub tracks: Seq<TrackView>,
}

impl IconView {
    /// No icon.
    pub open spec fn empty() -> IconView {
        IconView { filename: Seq::empty(), image: Seq::empty() }
    }
}

impl TrackView {
    /// The track that a new cup holds in the slot numbered `id`.
    pub open spec fn fresh(id: usize) -> TrackView {
        TrackView {
            id,
            name: Seq::empty(),
            author: Seq::empty(),
            property: Id::MarioCircuit,
            music: Id::MarioCircuit,
            new: false,
            flag: GroupFlag::NoGroup,
            filename: Seq::empty(),
        }
    }
}

impl CupView {
    /// The cup that is made at position `n` of the roster: named after its
    /// position, without an icon, its four tracks numbered from `4 * n`.
    pub open spec fn fresh(n: nat) -> CupView {
        CupView {
            name: "Cup "@ + decimal_text(n),
            icon: IconView::empty(),
            tracks: Seq::new(4, |k: int| TrackView::fresh((n * 4 + k) as usize)),
        }
    }
}

impl View for Icon {
    type V = IconView;

    open spec fn view(&self) -> IconView {
        IconView { filename: self.filename@, image: self.image@ }
    }
}

impl View for Track {
    type V = TrackView;

    open spec fn view(&self) -> TrackView {
        TrackView {
            id: self.id,
            name: self.name@,
            author: self.author@,
            property: self.property,
            music: self.music,
            new: self.new,
            flag: self.flag,
            filename: self.filename@,
        }
    }
}

/// The tracks as mathematical values.
pub open spec fn track_views(tracks: Seq<Track>) -> Seq<TrackView> {
    tracks.map_values(|t: Track| t@)
}

impl View for Cup {
    type V = CupView;

    open spec fn view(&self) -> CupView {
        CupView { name: self.name@, icon: self.icon@, tracks: track_views(self.trackset@) }
    }
}

/// The cups as mathematical values.
pub open spec fn cup_views(cups: Seq<Cup>) -> Seq<CupView> {
    cups.map_values(|c: Cup| c@)
}

impl View for TrackDefinition {
    type V = Seq<CupView>;

    /// The cups of the roster, in order.
    open spec fn view(&self) -> Seq<CupView> {
        cup_views(self.cups@)
    }
}

impl Default for Icon {
    fn default() -> (r: Icon)
        ensures
            r@ == IconView::empty(),
    {
        Icon { filename: String::new(), image: Vec::new() }
    }
}

impl Icon {
    /// Whether this is "no icon": no file name and no picture.
    pub fn is_empty(&self) -> (r: bool)
        ensures
            r == (self@ == IconView::empty()),
    {
        let r = self.filename.as_str().is_empty() && self.image.len() == 0;
        proof {
            if r {
                assert(self.filename@ =~= Seq::<char>::empty());
                assert(self.image@ =~= Seq::<u8>::empty());
            }
        }
        r
    }

    /// Takes the icon away.
    pub fn clear(&mut self)
        ensures
            final(self)@ == IconView::empty(),
    {
        self.filename = String::new();
        self.image = Vec::new();
    }
}

impl Default for Track {
    fn default() -> (r: Track)
        ensures
            r@ == TrackView::fresh(0),
    {
        Track::numbered(0)
    }
}

impl Track {
    /// A track with nothing filled in, in the slot numbered `id`.
    pub fn numbered(id: usize) -> (r: Track)
        ensures
            r@ == TrackView::fresh(id),
    {
        Track {
            id,
            name: String::new(),
            author: String::new(),
            property: Id::MarioCircuit,
            music: Id::MarioCircuit,
            new: false,
            flag: GroupFlag::NoGroup,
            filename: String::new(),
        }
    }
}

impl Cup {
    /// The cup has its four tracks.
    pub open spec fn wf(&self) -> bool {
        self.trackset@.len() == TRACKS_PER_CUP
    }

    /// The cup that is made at position `n` of the roster.
    pub fn default(n: usize) -> (cup: Cup)
        requires
            n * 4 + 3 <= usize::MAX,
        ensures
            cup.wf(),
            cup@ == CupView::fresh(n as nat),
    {
        let mut trackset: Vec<Track> = Vec::new();
        trackset.push(Track::numbered(n * 4));
        trackset.push(Track::numbered(n * 4 + 1));
        trackset.push(Track::numbered(n * 4 + 2));
        trackset.push(Track::numbered(n * 4 + 3));
        let mut name: String = "Cup ".to_owned();
        push_decimal(&mut name, n);
        let cup = Cup { icon: Icon::default(), trackset, name };
        assert(cup@.tracks =~= CupView::fresh(n as nat).tracks);
        cup
    }
}

impl Default for TrackDefinition {
    fn default() -> (r: TrackDefinition)
        ensures
            r.wf(),
            r.selected == 0,
            r.mode == (CupSettings { nintendo: true, nin_swap: true, wiimm_cup: true }),
            r.cups@.len() == 1,
            r@ == seq![CupView::fresh(0)],
    {
        let mut cups: Vec<Cup> = Vec::new();
        cups.push(Cup::default(0));
        let r = TrackDefinition {
            selected: 0,
            cups,
            mode: CupSettings { nintendo: true, nin_swap: true, wiimm_cup: true },
        };
        assert(r@ =~= seq![CupView::fresh(0)]);
        r
    }
}

impl TrackDefinition {
    /// The roster holds at least one cup, the selected cup is one of them,
    /// and every cup has its four tracks.
    pub open spec fn wf(&self) -> bool {
        &&& self.cups@.len() >= 1
        &&& self.selected < self.cups@.len()
        &&& forall|i: int| 0 <= i < self.cups@.len() ==> (#[trigger] self.cups@[i]).wf()
    }

    /// Whether the roster is well formed.
    pub fn is_well_formed(&self) -> (r: bool)
        ensures
            r == self.wf(),
    {
        if self.cups.len() < 1 || self.selected >= self.cups.len() {
            return false;
        }
        let mut i: usize = 0;
        while i < self.cups.len()
            invariant
                i <= self.cups@.len(),
                forall|k: int| 0 <= k < i ==> (#[trigger] self.cups@[k]).wf(),
            decreases self.cups@.len() - i,
        {
            if self.cups[i].trackset.len() != TRACKS_PER_CUP {
                return false;
            }
            i += 1;
        }
        true
    }

    /// Whether a cup can be added: the slot numbers of its tracks, which
    /// start at four times the cup's position, must fit `usize`.
    pub fn has_room(&self) -> (r: bool)
        ensures
            r == (self.cups@.len() * 4 + 3 <= usize::MAX),
    {
        self.cups.len() <= (usize::MAX - 3) / 4
    }

    /// Adds a new cup at the end of the roster, made for that position.
    pub fn add_cup(&mut self)
        requires
            old(self).cups@.len() * 4 + 3 <= usize::MAX,
        ensures
            final(self)@ == old(self)@.push(CupView::fresh(old(self).cups@.len())),
            final(self).cups@.len() == old(self).cups@.len() + 1,
            final(self).cups@.subrange(0, old(self).cups@.len() as int) == old(self).cups@,
            final(self).mode == old(self).mode,
            final(self).selected == old(self).selected,
            old(self).wf() ==> final(self).wf(),
    {
        let n: usize = self.cups.len();
        self.cups.push(Cup::default(n));
        assert(self@ =~= old(self)@.push(CupView::fresh(n as nat)));
        assert(self.cups@.subrange(0, n as int) =~= old(self).cups@);
    }

    /// Removes the selected cup and moves the selection one up, unless it
    /// was the first. The last cup of the roster is never removed.
    pub fn delete_selected(&mut self)
        requires
            old(self).wf(),
        ensures
            final(self).wf(),
            final(self).mode == old(self).mode,
            old(self).cups@.len() <= 1 ==> *final(self) == *old(self),
            old(self).cups@.len() > 1 ==> {
                &&& final(self).cups@ == old(self).cups@.remove(old(self).selected as int)
                &&& final(self).selected == (if old(self).selected == 0 {
                    0
                } else {
                    old(self).selected - 1
                })
            },
    {
        if self.cups.len() <= 1 {
            return ;
        }
        let selected: usize = self.selected;
        if selected > 0 {
            self.selected = selected - 1;
        }
        self.cups.remove(selected);
    }

    /// Selects the cup at `index`. An index outside the roster changes
    /// nothing.
    pub fn select(&mut self, index: usize)
        ensures
            final(self).selected == (if index < old(self).cups@.len() {
                index
            } else {
                old(self).selected
            }),
            final(self).cups == old(self).cups,
            final(self).mode == old(self).mode,
            old(self).wf() ==> final(self).wf(),
    {
        if index < self.cups.len() {
            self.selected = index;
        }
    }
}

} // verus!
