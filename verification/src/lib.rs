//! Layered dotfile deployment: profile resolution, deployment execution and a
//! queryable per-run ledger of deployed items.

pub mod assoc;
pub mod deployment;
pub mod executor;
pub mod item;
pub mod resolver;

pub use deployment::{Deployment, DeploymentBuilder, DeploymentStatus};
pub use executor::{Action, DeployOutcome, Executor, ExecutorOptions, SourceKind};
pub use item::{DeployedItem, DeployedItemKind, Item, ItemStatus, MergeAction, MergeStrategy,
    Priority};
pub use resolver::{LayeredProfile, LayeredProfileBuilder, ResolutionError, SimpleProfile,
    resolve_profile};
