//! Parser for a line-oriented storyboard scripting format: a flat stream of
//! text lines becomes a sequence of timeline events, each carrying the timed
//! commands that were written indented beneath it.
mod command;
mod command_group;
mod event;
mod laws;
mod numbers;
mod storyboard;
mod text;

pub use command::{Command, CommandType, Easing, ErrorKind, LoopCommand, TriggerCommand, Vector2, Vector4};
pub use command::{CommandV, ErrorKindV, Vec2V, Vec4V};
pub use command::{spec_command, spec_easing, easing_table, eff_fields};
pub use command_group::CommandGroup;
pub use event::{Event, EventType, LayerType, LoopType, OriginType};
pub use event::{EventV, empty_event, spec_event, spec_etype, spec_layer, spec_origin, strip_quotes};
pub use numbers::{valid_float, valid_i32, i32_of};
pub use storyboard::{ParseError, ParseErrorV, Storyboard, StV};
pub use storyboard::{spec_storyboard, step_line, run_lines, finalize_st, init_st, cur_known, skippable, is_blank, is_comment, is_header};
pub use laws::{lemma_end_time_default, lemma_movement_end_defaults, lemma_axis_end_default, lemma_easing_code, lemma_param_flip_horizontal, lemma_depth_one_resets, lemma_unknown_event_drops, lemma_parse_deterministic, lemma_skippable_only_empty};
pub use text::{seq_views, spec_split, spec_lines};
