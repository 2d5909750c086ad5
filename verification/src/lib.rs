pub mod error;
pub mod assets;
pub mod asset_paths;
pub mod estimates;
pub mod text;
pub mod order;
pub mod bindings;
pub mod compiler;
pub mod blender_paths;
pub mod blender_session;
pub mod blender_ops;
pub mod blender_scripts;
pub mod contracts;
pub mod deployment;
pub mod dispatcher;
pub mod elements;
pub mod element_revisions;
pub mod game;
pub mod graph;
pub mod ingest;
pub mod jobs;
pub mod media;
pub mod uploads;
pub mod upload_flow;
pub mod outside;
pub mod paths;
pub mod production;
pub mod project;
pub mod project_updates;
pub mod registry;
pub mod scenes;
pub mod metadata;
pub mod descriptor_values;
pub mod job_submit;
pub mod continuity;
pub mod bootstrap;
pub mod delivery;
pub mod scene_jobs;
pub mod store_index;
pub mod style_review;
pub mod rooms;
pub mod workflow_catalog;
pub mod layout;
pub mod ids;
