//! The records of a routing-daemon configuration: routers, interfaces,
//! access-lists, route-maps and the bindings of route-maps to protocols.

pub mod openfabric;
pub mod ospf;
pub mod route_map;
pub mod serializer;

use vstd::prelude::*;
use vstd::string::StringSliceAdditionalSpecFns;
use crate::frr::openfabric::{
    OpenfabricInterface, OpenfabricInterfaceView, OpenfabricRouter, OpenfabricRouterName,
};
use crate::frr::ospf::{OspfInterface, OspfInterfaceView, OspfRouter, OspfRouterName};
use crate::frr::route_map::{
    AccessList, AccessListView, ProtocolRouteMap, ProtocolRouteMapView, RouteMap, RouteMapView,
};
use crate::ordered::{OrderedMap, SortKey};
use crate::sdn_types::net::NetView;
use crate::text::{
    chars_of, char_is_ascii, char_is_whitespace, code_points, is_ascii_char, is_whitespace,
    lemma_code_points_injective, lemma_seq_lt_tagged, text_precedes, text_same,
};
use crate::views::{byte_len, views};

verus! {

/// Why a text is no word of the daemon's language.
#[derive(Clone, Copy, Debug, PartialEq, Eq, Structural)]
pub enum FrrWordError {
    IsEmpty,
    InvalidCharacter,
}

/// `s` holds only ASCII characters and no white space.
pub open spec fn plain_chars(s: Seq<char>) -> bool {
    forall|i: int| 0 <= i < s.len() ==> is_ascii_char(#[trigger] s[i]) && !is_whitespace(s[i])
}

/// `s` is a word: not empty, only ASCII characters, no white space.
pub open spec fn is_frr_word(s: Seq<char>) -> bool {
    s.len() > 0 && plain_chars(s)
}

/// A word of the daemon's language, as every name and value in it is.
#[derive(Debug, PartialEq, Eq, Hash, PartialOrd, Ord)]
pub struct FrrWord(String);

impl View for FrrWord {
    type V = Seq<char>;

    closed spec fn view(&self) -> Seq<char> {
        self.0@
    }
}

impl Clone for FrrWord {
    fn clone(&self) -> (r: Self)
        ensures
            r == *self,
    {
        proof {
            use_type_invariant(self);
        }
        FrrWord(self.0.clone())
    }
}

impl FrrWord {
    #[verifier::type_invariant]
    spec fn well_formed(self) -> bool {
        is_frr_word(self.0@)
    }

    /// The word with the given text.
    pub fn new(name: String) -> (r: Result<FrrWord, FrrWordError>)
        ensures
            name@.len() == 0 ==> r == Err::<FrrWord, FrrWordError>(FrrWordError::IsEmpty),
            name@.len() > 0 && !plain_chars(name@) ==> r == Err::<FrrWord, FrrWordError>(
                FrrWordError::InvalidCharacter,
            ),
            is_frr_word(name@) ==> r is Ok && r->Ok_0@ == name@,
    {
        let v = chars_of(name.as_str());
        if v.len() == 0 {
            return Err(FrrWordError::IsEmpty);
        }
        let mut i: usize = 0;
        while i < v.len()
            invariant
                i <= v.len(),
                v@ == name@,
                forall|j: int|
                    0 <= j < i ==> is_ascii_char(#[trigger] v@[j]) && !is_whitespace(v@[j]),
            decreases v.len() - i,
        {
            if !char_is_ascii(v[i]) || char_is_whitespace(v[i]) {
                assert(!(is_ascii_char(name@[i as int]) && !is_whitespace(name@[i as int])));
                return Err(FrrWordError::InvalidCharacter);
            }
            i = i + 1;
        }
        Ok(FrrWord(name))
    }

    /// Reads a word from its text.
    pub fn parse_text(s: &str) -> (r: Result<FrrWord, FrrWordError>)
        ensures
            s@.len() == 0 ==> r == Err::<FrrWord, FrrWordError>(FrrWordError::IsEmpty),
            s@.len() > 0 && !plain_chars(s@) ==> r == Err::<FrrWord, FrrWordError>(
                FrrWordError::InvalidCharacter,
            ),
            is_frr_word(s@) ==> r is Ok && r->Ok_0@ == s@,
    {
        FrrWord::new(String::from_str(s))
    }

    pub fn as_str(&self) -> (r: &str)
        ensures
            r@ == self@,
            is_frr_word(r@),
    {
        proof {
            use_type_invariant(self);
        }
        self.0.as_str()
    }
}

/// Why a text is no interface name.
#[derive(Clone, Copy, Debug, PartialEq, Eq, Structural)]
pub enum CommonInterfaceNameError {
    TooLong,
}

/// The name of an interface, the same for every protocol: at most 15 bytes,
/// which is what the kernel takes.
#[derive(Debug, PartialEq, Eq, Hash, PartialOrd, Ord)]
pub struct CommonInterfaceName(String);

impl View for CommonInterfaceName {
    type V = Seq<char>;

    closed spec fn view(&self) -> Seq<char> {
        self.0@
    }
}

impl Clone for CommonInterfaceName {
    fn clone(&self) -> (r: Self)
        ensures
            r == *self,
    {
        proof {
            use_type_invariant(self);
        }
        CommonInterfaceName(self.0.clone())
    }
}

impl CommonInterfaceName {
    #[verifier::type_invariant]
    spec fn well_formed(self) -> bool {
        byte_len(self.0@) <= 15
    }

    /// The interface name with the given text.
    pub fn new(s: String) -> (r: Result<CommonInterfaceName, CommonInterfaceNameError>)
        ensures
            byte_len(s@) <= 15 ==> r is Ok && r->Ok_0@ == s@,
            byte_len(s@) > 15 ==> r == Err::<CommonInterfaceName, CommonInterfaceNameError>(
                CommonInterfaceNameError::TooLong,
            ),
    {
        let t: &str = s.as_str();
        let n: usize = t.as_bytes().len();
        assert(n == byte_len(s@)) by {
            assert(t.spec_bytes() == vstd::utf8::encode_utf8(t@));
        }
        if n <= 15 {
            Ok(CommonInterfaceName(s))
        } else {
            Err(CommonInterfaceNameError::TooLong)
        }
    }

    pub fn as_str(&self) -> (r: &str)
        ensures
            r@ == self@,
            byte_len(r@) <= 15,
    {
        proof {
            use_type_invariant(self);
        }
        self.0.as_str()
    }
}

/// The name of an interface together with the protocol that it serves, so
/// that one interface can stand in a fabric of each protocol.
#[derive(Clone, Debug, PartialEq, Eq, Hash, PartialOrd, Ord)]
pub enum InterfaceName {
    Openfabric(CommonInterfaceName),
    Ospf(CommonInterfaceName),
}

/// The view of an interface name.
pub enum InterfaceNameView {
    Openfabric(Seq<char>),
    Ospf(Seq<char>),
}

impl InterfaceNameView {
    /// The text of the name.
    pub open spec fn text(self) -> Seq<char> {
        match self {
            InterfaceNameView::Openfabric(n) => n,
            InterfaceNameView::Ospf(n) => n,
        }
    }
}

impl View for InterfaceName {
    type V = InterfaceNameView;

    open spec fn view(&self) -> InterfaceNameView {
        match self {
            InterfaceName::Openfabric(n) => InterfaceNameView::Openfabric(n@),
            InterfaceName::Ospf(n) => InterfaceNameView::Ospf(n@),
        }
    }
}

impl InterfaceName {
    /// The text of the name.
    pub fn as_str(&self) -> (r: &str)
        ensures
            r@ == self@.text(),
    {
        match self {
            InterfaceName::Openfabric(n) => n.as_str(),
            InterfaceName::Ospf(n) => n.as_str(),
        }
    }
}

impl SortKey for InterfaceName {
    open spec fn rank(v: InterfaceNameView) -> Seq<int> {
        match v {
            InterfaceNameView::Openfabric(n) => seq![0int] + code_points(n),
            InterfaceNameView::Ospf(n) => seq![1int] + code_points(n),
        }
    }

    proof fn lemma_rank_injective(a: InterfaceNameView, b: InterfaceNameView) {
        let ra = Self::rank(a);
        let rb = Self::rank(b);
        assert(ra[0] == rb[0]);
        assert(code_points(a.text()) =~= ra.subrange(1, ra.len() as int));
        assert(code_points(b.text()) =~= rb.subrange(1, rb.len() as int));
        lemma_code_points_injective(a.text(), b.text());
    }

    fn precedes(&self, other: &Self) -> (r: bool) {
        proof {
            lemma_seq_lt_tagged(
                Self::rank(self@)[0],
                code_points(self@.text()),
                Self::rank(other@)[0],
                code_points(other@.text()),
            );
        }
        match (self, other) {
            (InterfaceName::Openfabric(a), InterfaceName::Openfabric(b)) => text_precedes(
                a.as_str(),
                b.as_str(),
            ),
            (InterfaceName::Openfabric(_), InterfaceName::Ospf(_)) => true,
            (InterfaceName::Ospf(_), InterfaceName::Openfabric(_)) => false,
            (InterfaceName::Ospf(a), InterfaceName::Ospf(b)) => text_precedes(
                a.as_str(),
                b.as_str(),
            ),
        }
    }

    fn same(&self, other: &Self) -> (r: bool) {
        match (self, other) {
            (InterfaceName::Openfabric(a), InterfaceName::Openfabric(b)) => text_same(
                a.as_str(),
                b.as_str(),
            ),
            (InterfaceName::Ospf(a), InterfaceName::Ospf(b)) => text_same(a.as_str(), b.as_str()),
            _ => false,
        }
    }
}

/// An interface of the daemon's configuration.
#[derive(Clone, Debug, PartialEq, Eq, PartialOrd, Ord)]
pub enum Interface {
    Openfabric(OpenfabricInterface),
    Ospf(OspfInterface),
}

/// The view of an interface.
pub enum InterfaceView {
    Openfabric(OpenfabricInterfaceView),
    Ospf(OspfInterfaceView),
}

impl View for Interface {
    type V = InterfaceView;

    open spec fn view(&self) -> InterfaceView {
        match self {
            Interface::Openfabric(i) => InterfaceView::Openfabric(i@),
            Interface::Ospf(i) => InterfaceView::Ospf(i@),
        }
    }
}

/// A router of the daemon's configuration.
#[derive(Clone, Debug, PartialEq, Eq, Hash, PartialOrd, Ord)]
pub enum Router {
    Openfabric(OpenfabricRouter),
    Ospf(OspfRouter),
}

/// The view of a router.
pub enum RouterView {
    Openfabric(NetView),
    Ospf(OspfRouter),
}

impl View for Router {
    type V = RouterView;

    open spec fn view(&self) -> RouterView {
        match self {
            Router::Openfabric(r) => RouterView::Openfabric(r.net@),
            Router::Ospf(r) => RouterView::Ospf(*r),
        }
    }
}

/// The name of a router: the protocol, and for OpenFabric the fabric.
#[derive(Clone, Debug, PartialEq, Eq, Hash, PartialOrd, Ord)]
pub enum RouterName {
    Openfabric(OpenfabricRouterName),
    Ospf(OspfRouterName),
}

/// The view of a router name.
pub enum RouterNameView {
    Openfabric(Seq<char>),
    Ospf,
}

impl View for RouterName {
    type V = RouterNameView;

    open spec fn view(&self) -> RouterNameView {
        match self {
            RouterName::Openfabric(n) => RouterNameView::Openfabric(n@),
            RouterName::Ospf(_) => RouterNameView::Ospf,
        }
    }
}

impl SortKey for RouterName {
    open spec fn rank(v: RouterNameView) -> Seq<int> {
        match v {
            RouterNameView::Openfabric(n) => seq![0int] + code_points(n),
            RouterNameView::Ospf => seq![1int],
        }
    }

    proof fn lemma_rank_injective(a: RouterNameView, b: RouterNameView) {
        let ra = Self::rank(a);
        let rb = Self::rank(b);
        assert(ra[0] == rb[0]);
        match (a, b) {
            (RouterNameView::Openfabric(x), RouterNameView::Openfabric(y)) => {
                assert(code_points(x) =~= ra.subrange(1, ra.len() as int));
                assert(code_points(y) =~= rb.subrange(1, rb.len() as int));
                lemma_code_points_injective(x, y);
            },
            _ => {},
        }
    }

    fn precedes(&self, other: &Self) -> (r: bool) {
        match (self, other) {
            (RouterName::Openfabric(a), RouterName::Openfabric(b)) => {
                proof {
                    lemma_seq_lt_tagged(0, code_points(a@), 0, code_points(b@));
                }
                text_precedes(a.as_str(), b.as_str())
            },
            (RouterName::Openfabric(a), RouterName::Ospf(_)) => {
                proof {
                    lemma_seq_lt_tagged(0, code_points(a@), 1, Seq::<int>::empty());
                    assert(seq![1int] + Seq::<int>::empty() =~= seq![1int]);
                }
                true
            },
            (RouterName::Ospf(_), RouterName::Openfabric(b)) => {
                proof {
                    lemma_seq_lt_tagged(1, Seq::<int>::empty(), 0, code_points(b@));
                    assert(seq![1int] + Seq::<int>::empty() =~= seq![1int]);
                }
                false
            },
            (RouterName::Ospf(_), RouterName::Ospf(_)) => {
                proof {
                    crate::text::lemma_seq_lt_irreflexive(seq![1int]);
                }
                false
            },
        }
    }

    fn same(&self, other: &Self) -> (r: bool) {
        match (self, other) {
            (RouterName::Openfabric(a), RouterName::Openfabric(b)) => text_same(
                a.as_str(),
                b.as_str(),
            ),
            (RouterName::Ospf(_), RouterName::Ospf(_)) => true,
            _ => false,
        }
    }
}

/// The whole configuration of the daemon: routers and interfaces by name,
/// in ascending order of the names, access-lists and route-maps in the order
/// in which they were added, and the bindings of route-maps to protocols in
/// ascending order.
#[derive(Debug, PartialEq, Eq)]
pub struct FrrConfig {
    pub router: OrderedMap<RouterName, Router>,
    pub interfaces: OrderedMap<InterfaceName, Interface>,
    pub access_lists: Vec<AccessList>,
    pub routemaps: Vec<RouteMap>,
    pub protocol_routemaps: OrderedMap<ProtocolRouteMap, ()>,
}

/// The view of a configuration.
pub struct FrrConfigView {
    pub router: Seq<(RouterNameView, RouterView)>,
    pub interfaces: Seq<(InterfaceNameView, InterfaceView)>,
    pub access_lists: Seq<AccessListView>,
    pub routemaps: Seq<RouteMapView>,
    pub protocol_routemaps: Seq<(ProtocolRouteMapView, ())>,
}

impl View for FrrConfig {
    type V = FrrConfigView;

    open spec fn view(&self) -> FrrConfigView {
        FrrConfigView {
            router: self.router@,
            interfaces: self.interfaces@,
            access_lists: views(self.access_lists@),
            routemaps: views(self.routemaps@),
            protocol_routemaps: self.protocol_routemaps@,
        }
    }
}

impl FrrConfigView {
    /// The configuration without any record.
    pub open spec fn empty() -> FrrConfigView {
        FrrConfigView {
            router: Seq::empty(),
            interfaces: Seq::empty(),
            access_lists: Seq::empty(),
            routemaps: Seq::empty(),
            protocol_routemaps: Seq::empty(),
        }
    }
}

impl FrrConfig {
    /// The configuration without any record.
    pub fn new() -> (r: FrrConfig)
        ensures
            r@ == FrrConfigView::empty(),
    {
        let r = FrrConfig {
            router: OrderedMap::new(),
            interfaces: OrderedMap::new(),
            access_lists: Vec::new(),
            routemaps: Vec::new(),
            protocol_routemaps: OrderedMap::new(),
        };
        assert(views(r.access_lists@) =~= Seq::<AccessListView>::empty());
        assert(views(r.routemaps@) =~= Seq::<RouteMapView>::empty());
        r
    }
}

} // verus!
