//! Fabrics: what every fabric holds, and the fabrics of each protocol.

use vstd::prelude::*;
use crate::common::valid::Validatable;
use crate::ip_address::cidr::{Ipv4Cidr, Ipv6Cidr};
use crate::ordered::{Replicate, SortKey};
use crate::sdn::fabric::section_config::protocol::openfabric::{
    OpenfabricDeletableProperties, OpenfabricProperties, OpenfabricPropertiesUpdater,
};
use crate::sdn::fabric::section_config::protocol::ospf::{
    OspfDeletableProperties, OspfProperties, OspfPropertiesUpdater,
};
use crate::sdn::fabric::section_config::{check_label, is_label, SectionIdError};
use crate::sdn::fabric::{FabricConfigError, FabricConfigErrorView};
use crate::text::{chars_of, code_points, lemma_code_points_injective, text_precedes, text_same};

verus! {

/// The name of a fabric: a label of at most eight characters.
#[derive(Debug, PartialEq, Eq, PartialOrd, Ord, Hash)]
pub struct FabricId(String);

impl View for FabricId {
    type V = Seq<char>;

    closed spec fn view(&self) -> Seq<char> {
        self.0@
    }
}

impl Clone for FabricId {
    fn clone(&self) -> (r: Self)
        ensures
            r == *self,
    {
        proof {
            use_type_invariant(self);
        }
        FabricId(self.0.clone())
    }
}

impl FabricId {
    #[verifier::type_invariant]
    spec fn well_formed(self) -> bool {
        is_label(self.0@, 8)
    }

    /// The fabric name with the given text.
    pub fn from_string(s: String) -> (r: Result<FabricId, SectionIdError>)
        ensures
            is_label(s@, 8) ==> r is Ok && r->Ok_0@ == s@,
            !is_label(s@, 8) ==> r == Err::<FabricId, SectionIdError>(
                SectionIdError::InvalidFabricId,
            ),
    {
        let v = chars_of(s.as_str());
        if check_label(&v, 8) {
            Ok(FabricId(s))
        } else {
            Err(SectionIdError::InvalidFabricId)
        }
    }

    pub fn as_str(&self) -> (r: &str)
        ensures
            r@ == self@,
            is_label(r@, 8),
    {
        proof {
            use_type_invariant(self);
        }
        self.0.as_str()
    }

    /// The name as a text of its own.
    pub fn to_text(&self) -> (r: String)
        ensures
            r@ == self@,
            is_label(r@, 8),
    {
        proof {
            use_type_invariant(self);
        }
        self.0.clone()
    }
}

impl Replicate for FabricId {
    fn replicate(&self) -> (r: Self) {
        self.clone()
    }
}

impl SortKey for FabricId {
    open spec fn rank(v: Seq<char>) -> Seq<int> {
        code_points(v)
    }

    proof fn lemma_rank_injective(a: Seq<char>, b: Seq<char>) {
        lemma_code_points_injective(a, b);
    }

    fn precedes(&self, other: &Self) -> (r: bool) {
        text_precedes(self.as_str(), other.as_str())
    }

    fn same(&self, other: &Self) -> (r: bool) {
        text_same(self.as_str(), other.as_str())
    }
}

/// What every fabric holds, whatever its protocol: its name, the prefixes
/// that hold the addresses of its nodes, and the properties of its protocol.
#[derive(Debug, Clone, PartialEq, Eq, Hash)]
pub struct FabricSection<T> {
    pub id: FabricId,
    pub ip_prefix: Option<Ipv4Cidr>,
    pub ip6_prefix: Option<Ipv6Cidr>,
    pub properties: T,
}

/// The view of a fabric.
pub struct FabricSectionView<P> {
    pub id: Seq<char>,
    pub ip_prefix: Option<Ipv4Cidr>,
    pub ip6_prefix: Option<Ipv6Cidr>,
    pub properties: P,
}

impl<T: View> View for FabricSection<T> {
    type V = FabricSectionView<T::V>;

    open spec fn view(&self) -> FabricSectionView<T::V> {
        FabricSectionView {
            id: self.id@,
            ip_prefix: self.ip_prefix,
            ip6_prefix: self.ip6_prefix,
            properties: self.properties@,
        }
    }
}

impl<T: View> FabricSection<T> {
    /// The fabric of the given parts.
    pub fn new(
        id: FabricId,
        ip_prefix: Option<Ipv4Cidr>,
        ip6_prefix: Option<Ipv6Cidr>,
        properties: T,
    ) -> (r: FabricSection<T>)
        ensures
            r@ == (FabricSectionView {
                id: id@,
                ip_prefix,
                ip6_prefix,
                properties: properties@,
            }),
            r.properties == properties,
    {
        FabricSection { id, ip_prefix, ip6_prefix, properties }
    }

    pub fn properties(&self) -> (r: &T)
        ensures
            *r == self.properties,
    {
        &self.properties
    }

    /// The properties of the protocol, to be changed in place: the fabric
    /// is afterwards what it was, with the properties as they were left.
    pub fn properties_mut(&mut self) -> (r: &mut T)
        ensures
            *r == old(self).properties,
            *final(self) == (FabricSection { properties: *final(r), ..*old(self) }),
    {
        &mut self.properties
    }

    pub fn id(&self) -> (r: &FabricId)
        ensures
            r@ == self@.id,
    {
        &self.id
    }

    pub fn ip_prefix(&self) -> (r: Option<Ipv4Cidr>)
        ensures
            r == self@.ip_prefix,
    {
        self.ip_prefix
    }

    pub fn ip6_prefix(&self) -> (r: Option<Ipv6Cidr>)
        ensures
            r == self@.ip6_prefix,
    {
        self.ip6_prefix
    }
}

impl<T: Replicate> Replicate for FabricSection<T> {
    fn replicate(&self) -> (r: Self) {
        FabricSection {
            id: self.id.clone(),
            ip_prefix: self.ip_prefix,
            ip6_prefix: self.ip6_prefix,
            properties: self.properties.replicate(),
        }
    }
}

/// What validation finds of an OpenFabric fabric: it needs a prefix of one
/// family at least.
pub open spec fn check_openfabric_fabric(f: FabricSectionView<OpenfabricProperties>) -> Result<
    (),
    FabricConfigErrorView,
> {
    if f.ip_prefix is None && f.ip6_prefix is None {
        Err(FabricConfigErrorView::FabricNoIpPrefix(f.id))
    } else {
        Ok(())
    }
}

/// What validation finds of an OSPF fabric: it needs a prefix of version 4
/// and takes none of version 6.
pub open spec fn check_ospf_fabric(f: FabricSectionView<OspfProperties>) -> Result<
    (),
    FabricConfigErrorView,
> {
    if f.ip_prefix is None {
        Err(FabricConfigErrorView::FabricNoIpPrefix(f.id))
    } else if f.ip6_prefix is Some {
        Err(FabricConfigErrorView::Ipv6Unsupported("ospf"@))
    } else {
        Ok(())
    }
}

impl Validatable for FabricSection<OpenfabricProperties> {
    type Error = FabricConfigError;

    open spec fn is_valid(&self) -> bool {
        check_openfabric_fabric(self@) is Ok
    }

    open spec fn fails_with(&self, e: FabricConfigError) -> bool {
        check_openfabric_fabric(self@) == Err::<(), FabricConfigErrorView>(e@)
    }

    fn validate(&self) -> (r: Result<(), FabricConfigError>) {
        if self.ip_prefix.is_none() && self.ip6_prefix.is_none() {
            return Err(FabricConfigError::FabricNoIpPrefix(self.id.to_text()));
        }
        Ok(())
    }
}

impl Validatable for FabricSection<OspfProperties> {
    type Error = FabricConfigError;

    open spec fn is_valid(&self) -> bool {
        check_ospf_fabric(self@) is Ok
    }

    open spec fn fails_with(&self, e: FabricConfigError) -> bool {
        check_ospf_fabric(self@) == Err::<(), FabricConfigErrorView>(e@)
    }

    fn validate(&self) -> (r: Result<(), FabricConfigError>) {
        if self.ip_prefix.is_none() {
            return Err(FabricConfigError::FabricNoIpPrefix(self.id.to_text()));
        }
        if self.ip6_prefix.is_some() {
            return Err(FabricConfigError::Ipv6Unsupported(String::from_str("ospf")));
        }
        Ok(())
    }
}

/// A fabric of one of the protocols.
#[derive(Debug, Clone, PartialEq, Eq, Hash)]
pub enum Fabric {
    Openfabric(FabricSection<OpenfabricProperties>),
    Ospf(FabricSection<OspfProperties>),
}

/// The view of a fabric of one of the protocols.
pub enum FabricView {
    Openfabric(FabricSectionView<OpenfabricProperties>),
    Ospf(FabricSectionView<OspfProperties>),
}

impl FabricView {
    pub open spec fn id(self) -> Seq<char> {
        match self {
            FabricView::Openfabric(f) => f.id,
            FabricView::Ospf(f) => f.id,
        }
    }

    pub open spec fn ip_prefix(self) -> Option<Ipv4Cidr> {
        match self {
            FabricView::Openfabric(f) => f.ip_prefix,
            FabricView::Ospf(f) => f.ip_prefix,
        }
    }

    pub open spec fn ip6_prefix(self) -> Option<Ipv6Cidr> {
        match self {
            FabricView::Openfabric(f) => f.ip6_prefix,
            FabricView::Ospf(f) => f.ip6_prefix,
        }
    }

    /// The same fabric with another prefix of version 4.
    pub open spec fn with_ip_prefix(self, p: Option<Ipv4Cidr>) -> FabricView {
        match self {
            FabricView::Openfabric(f) => FabricView::Openfabric(
                FabricSectionView { ip_prefix: p, ..f },
            ),
            FabricView::Ospf(f) => FabricView::Ospf(FabricSectionView { ip_prefix: p, ..f }),
        }
    }

    /// The same fabric with another prefix of version 6.
    pub open spec fn with_ip6_prefix(self, p: Option<Ipv6Cidr>) -> FabricView {
        match self {
            FabricView::Openfabric(f) => FabricView::Openfabric(
                FabricSectionView { ip6_prefix: p, ..f },
            ),
            FabricView::Ospf(f) => FabricView::Ospf(FabricSectionView { ip6_prefix: p, ..f }),
        }
    }

    /// What validation finds of the fabric.
    pub open spec fn check(self) -> Result<(), FabricConfigErrorView> {
        match self {
            FabricView::Openfabric(f) => check_openfabric_fabric(f),
            FabricView::Ospf(f) => check_ospf_fabric(f),
        }
    }
}

impl View for Fabric {
    type V = FabricView;

    open spec fn view(&self) -> FabricView {
        match self {
            Fabric::Openfabric(f) => FabricView::Openfabric(f@),
            Fabric::Ospf(f) => FabricView::Ospf(f@),
        }
    }
}

impl Fabric {
    pub fn id(&self) -> (r: &FabricId)
        ensures
            r@ == self@.id(),
    {
        match self {
            Fabric::Openfabric(f) => f.id(),
            Fabric::Ospf(f) => f.id(),
        }
    }

    pub fn ip_prefix(&self) -> (r: Option<Ipv4Cidr>)
        ensures
            r == self@.ip_prefix(),
    {
        match self {
            Fabric::Openfabric(f) => f.ip_prefix(),
            Fabric::Ospf(f) => f.ip_prefix(),
        }
    }

    pub fn ip6_prefix(&self) -> (r: Option<Ipv6Cidr>)
        ensures
            r == self@.ip6_prefix(),
    {
        match self {
            Fabric::Openfabric(f) => f.ip6_prefix(),
            Fabric::Ospf(f) => f.ip6_prefix(),
        }
    }

    /// Gives the fabric the prefix of version 4.
    pub fn set_ip_prefix(&mut self, prefix: Ipv4Cidr)
        ensures
            final(self)@ == old(self)@.with_ip_prefix(Some(prefix)),
    {
        match self {
            Fabric::Openfabric(f) => {
                f.ip_prefix = Some(prefix);
            },
            Fabric::Ospf(f) => {
                f.ip_prefix = Some(prefix);
            },
        }
    }

    /// Gives the fabric the prefix of version 6.
    pub fn set_ip6_prefix(&mut self, prefix: Ipv6Cidr)
        ensures
            final(self)@ == old(self)@.with_ip6_prefix(Some(prefix)),
    {
        match self {
            Fabric::Openfabric(f) => {
                f.ip6_prefix = Some(prefix);
            },
            Fabric::Ospf(f) => {
                f.ip6_prefix = Some(prefix);
            },
        }
    }
}

impl Validatable for Fabric {
    type Error = FabricConfigError;

    open spec fn is_valid(&self) -> bool {
        self@.check() is Ok
    }

    open spec fn fails_with(&self, e: FabricConfigError) -> bool {
        self@.check() == Err::<(), FabricConfigErrorView>(e@)
    }

    fn validate(&self) -> (r: Result<(), FabricConfigError>) {
        match self {
            Fabric::Openfabric(f) => f.validate(),
            Fabric::Ospf(f) => f.validate(),
        }
    }
}

/// The properties of a fabric that can be taken away.
#[derive(Debug, Clone, Copy, PartialEq, Eq)]
#[verifier::ext_equal]
pub enum FabricDeletableProperties<T> {
    IpPrefix,
    Ip6Prefix,
    Protocol(T),
}

/// The changes to a fabric: each value that is given takes the place of the
/// one before, and each property that is named for deletion is taken away
/// afterwards.
#[derive(Debug, Clone)]
pub struct FabricSectionUpdater<T, D> {
    pub ip_prefix: Option<Ipv4Cidr>,
    pub ip6_prefix: Option<Ipv6Cidr>,
    pub properties: T,
    pub delete: Vec<FabricDeletableProperties<D>>,
}

/// The changes to a fabric of one of the protocols.
#[derive(Debug, Clone)]
pub enum FabricUpdater {
    Openfabric(FabricSectionUpdater<OpenfabricPropertiesUpdater, OpenfabricDeletableProperties>),
    Ospf(FabricSectionUpdater<OspfPropertiesUpdater, OspfDeletableProperties>),
}

impl FabricUpdater {
    /// The changes change nothing.
    pub open spec fn changes_nothing(self) -> bool {
        match self {
            FabricUpdater::Openfabric(u) => u.ip_prefix is None && u.ip6_prefix is None
                && u.properties.hello_interval is None && u.properties.csnp_interval is None
                && u.delete@.len() == 0,
            FabricUpdater::Ospf(u) => u.ip_prefix is None && u.ip6_prefix is None
                && u.properties.area is None && u.delete@.len() == 0,
        }
    }

    /// Whether the changes change nothing.
    pub fn is_empty(&self) -> (r: bool)
        ensures
            r == self.changes_nothing(),
    {
        match self {
            FabricUpdater::Openfabric(u) => u.ip_prefix.is_none() && u.ip6_prefix.is_none()
                && u.properties.hello_interval.is_none() && u.properties.csnp_interval.is_none()
                && u.delete.len() == 0,
            FabricUpdater::Ospf(u) => u.ip_prefix.is_none() && u.ip6_prefix.is_none()
                && u.properties.area.is_none() && u.delete.len() == 0,
        }
    }
}

} // verus!
