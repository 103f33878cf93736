//! Buses: PCI configuration and enumeration.
pub mod pci;
