//! The builder of the daemon's configuration.

use vstd::prelude::*;
use crate::common::valid::{Valid, Validatable};
use crate::frr::{FrrConfig, FrrConfigView};
use crate::sdn::fabric::frr::{build_fabric, compile, CompileError, CompileWarning};
use crate::sdn::fabric::section_config::node::NodeId;
use crate::sdn::fabric::validation::{check_config, config_claims};
use crate::sdn::fabric::{FabricConfig, FabricConfigView};
use crate::views::views;

verus! {

/// Collects what the daemon's configuration is made from, and makes it.
#[derive(Debug)]
pub struct FrrConfigBuilder {
    fabrics: Valid<FabricConfig>,
}

/// A configuration without fabrics is in order.
pub proof fn lemma_empty_config_valid(c: FabricConfigView)
    requires
        c.len() == 0,
    ensures
        check_config(c) is Ok,
{
    assert(config_claims(c, 0) =~= Seq::empty());
}

impl FrrConfigBuilder {
    /// The fabric configuration that the builder holds.
    pub closed spec fn fabrics(&self) -> FabricConfigView {
        self.fabrics.inner()@
    }

    /// The builder that holds a configuration without fabrics.
    pub fn new() -> (r: FrrConfigBuilder)
        ensures
            r.fabrics().len() == 0,
    {
        let empty = FabricConfig::new();
        proof {
            lemma_empty_config_valid(empty@);
        }
        match Valid::into_valid(empty) {
            Ok(fabrics) => FrrConfigBuilder { fabrics },
            Err(_) => vstd::pervasive::unreached(),
        }
    }

    /// The builder with the given fabric configuration in place of the one
    /// that it held.
    pub fn add_fabrics(self, fabric: Valid<FabricConfig>) -> (r: FrrConfigBuilder)
        ensures
            r.fabrics() == fabric.inner()@,
    {
        let mut builder = self;
        builder.fabrics = fabric;
        builder
    }

    /// Makes the daemon's configuration for the node of the given name:
    /// the records that the fabrics add to an empty configuration, and the
    /// warnings that compilation gave.
    pub fn build(self, current_node: NodeId) -> (r: Result<
        (FrrConfig, Vec<CompileWarning>),
        CompileError,
    >)
        ensures
            match compile(FrrConfigView::empty(), self.fabrics(), current_node@).1 {
                None => r is Ok && r->Ok_0.0@ == compile(
                    FrrConfigView::empty(),
                    self.fabrics(),
                    current_node@,
                ).0.config && views(r->Ok_0.1@) == compile(
                    FrrConfigView::empty(),
                    self.fabrics(),
                    current_node@,
                ).0.warnings,
                Some(e) => r == Err::<(FrrConfig, Vec<CompileWarning>), CompileError>(e),
            },
            100 + 20 * self.fabrics().len() <= u32::MAX ==> r is Ok,
    {
        let mut frr_config = FrrConfig::new();
        match build_fabric(current_node, self.fabrics, &mut frr_config) {
            Ok(warnings) => Ok((frr_config, warnings)),
            Err(e) => Err(e),
        }
    }
}

} // verus!
