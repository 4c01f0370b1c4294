//! The state of the Blackholes workspace application and every decision it
//! takes: what is selected and shown, what a command changes, which terminals
//! and documents are live, and what the host has to do next.
pub mod accounts;
pub mod additions;
pub mod app;
pub mod bridge;
pub mod browsing;
pub mod clock;
pub mod collections;
pub mod commands;
pub mod delegation;
pub mod diffs;
pub mod dock;
pub mod documents;
pub mod drafts;
pub mod effects;
pub mod explorer;
pub mod frame;
pub mod git;
pub mod history;
pub mod ids;
pub mod invariants;
pub mod labels;
pub mod launching;
pub mod modal_views;
pub mod modals;
pub mod model;
pub mod navigation;
pub mod paths;
pub mod projects;
pub mod quick_open;
pub mod ranking;
pub mod reloading;
pub mod removal;
pub mod scoring;
pub mod search;
pub mod selection;
pub mod sidebar;
pub mod sidebar_actions;
pub mod sorting;
pub mod source_control;
pub mod startup;
pub mod surfaces;
pub mod task_dialogs;
pub mod terminals;
pub mod text;
pub mod titles;
pub mod toasts;
pub mod tree;
pub mod webviews;
pub mod workbench;
pub mod workspace_commands;
