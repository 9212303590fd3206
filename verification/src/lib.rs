//! The packet path of one port of a virtual private cloud.
//!
//! A port stands between a guest and the network. Every packet that passes it, in or out,
//! is parsed, matched against the rules of an ordered stack of layers (gateway, firewall,
//! router, address translation, overlay), and let through with its headers rewritten,
//! dropped, or answered on the spot. What the layers decided for a flow is kept in the
//! port's unified flow table, so that the next packets of the flow need no layer.
//!
//! The modules, leaves first: [`wire`], [`text`] and [`checksum`] for bytes, text and
//! the Internet checksum; [`addr`] and [`encap`] for addresses and network identifiers;
//! [`ether`], [`arp`], [`ip4`], [`ip6`], [`tcp`], [`udp`], [`geneve`] and [`headers`] for
//! the headers; [`packet`] and [`parsed`] for packets; [`predicate`], [`rule`],
//! [`transform`] and [`meta`] for rules and what they do; [`flow_table`] and [`time`] for
//! flows; [`layer`] for a layer; [`port`] and [`process`] for the port; [`vpc`],
//! [`echo`], [`firewall`], [`router`], [`snat`] and [`overlay`] for the network and its
//! layers; [`tcp_state`] for the state of TCP connections; [`dump`] and [`print`] for
//! looking into a port; [`api`] for what the commands of a port share.
pub mod addr;
pub mod api;
pub mod arp;
pub mod checksum;
pub mod dump;
pub mod echo;
pub mod encap;
pub mod ether;
pub mod firewall;
pub mod flow_table;
pub mod geneve;
pub mod headers;
pub mod ip4;
pub mod ip6;
pub mod layer;
pub mod meta;
pub mod overlay;
pub mod packet;
pub mod parsed;
pub mod port;
pub mod predicate;
pub mod print;
pub mod process;
pub mod router;
pub mod rule;
pub mod snat;
pub mod tcp;
pub mod tcp_state;
pub mod text;
pub mod time;
pub mod transform;
pub mod udp;
pub mod vpc;
pub mod wire;
