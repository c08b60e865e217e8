//! The blocks of a single-file component.

use vstd::prelude::*;
use crate::ast::{Node, StartingTag};

verus! {

/// A single-file component, block by block.
#[derive(Debug, Default)]
pub struct SfcDescriptor {
    pub template: Option<SfcTemplateBlock>,
    pub script_legacy: Option<SfcScriptBlock>,
    pub script_setup: Option<SfcScriptBlock>,
    pub styles: Vec<SfcStyleBlock>,
    pub custom_blocks: Vec<SfcCustomBlock>,
}

/// The `<template>` block: its language and its root nodes.
#[derive(Debug)]
pub struct SfcTemplateBlock {
    pub lang: String,
    pub roots: Vec<Node>,
}

/// A `<script>` or `<script setup>` block and its source.
#[derive(Debug)]
pub struct SfcScriptBlock {
    pub content: String,
    pub lang: SfcScriptLang,
    pub is_setup: bool,
}

/// A `<style>` block.
#[derive(Debug)]
pub struct SfcStyleBlock {
    pub lang: String,
    pub content: String,
    pub is_scoped: bool,
}

/// Any other top-level block.
#[derive(Debug)]
pub struct SfcCustomBlock {
    pub starting_tag: StartingTag,
    pub content: String,
}

/// The language of a script block.
#[derive(Clone, Copy, Debug, PartialEq, Eq, Structural)]
pub enum SfcScriptLang {
    Es,
    Typescript,
}

} // verus!
