//! Tool argument and response types for the serial MCP tools, and the
//! defaults of optional arguments.
use crate::serial::{FlushTarget, PortInfo};
use vstd::prelude::*;
use vstd::string::*;

verus! {

// ---- Argument structs ------------------------------------------------------

#[derive(Debug, Clone)]
pub struct OpenArgs {
    pub port: String,
    pub baud_rate: u32,
    pub data_bits: String,
    pub stop_bits: String,
    pub parity: String,
    pub flow_control: String,
}

#[derive(Debug, Clone)]
pub struct CloseArgs {
    pub connection_id: String,
}

#[derive(Debug, Clone)]
pub struct WriteArgs {
    pub connection_id: String,
    pub data: String,
    pub encoding: String,
}

#[derive(Debug, Clone)]
pub struct ReadArgs {
    pub connection_id: String,
    pub timeout_ms: Option<u64>,
    pub max_bytes: usize,
    pub encoding: String,
}

#[derive(Debug, Clone)]
pub struct FlushArgs {
    pub connection_id: String,
    pub target: FlushTarget,
}

#[derive(Debug, Clone)]
pub struct SetDtrRtsArgs {
    pub connection_id: String,
    pub dtr: bool,
    pub rts: bool,
}

#[derive(Debug, Clone)]
pub struct SendBreakArgs {
    pub connection_id: String,
    pub duration_ms: u64,
}

#[derive(Debug, Clone)]
pub struct SubscribeArgs {
    pub connection_id: String,
    pub encoding: String,
    pub max_chunk_bytes: usize,
    pub poll_interval_ms: u64,
    /// When set, the call collects bytes for this long and returns them
    /// instead of streaming in the background.
    pub timeout_ms: Option<u64>,
}

#[derive(Debug, Clone)]
pub struct UnsubscribeArgs {
    pub connection_id: String,
}

#[derive(Debug, Clone)]
pub struct WaitForArgs {
    pub connection_id: String,
    pub pattern: String,
    pub pattern_encoding: String,
    pub timeout_ms: u64,
    pub max_bytes: usize,
    pub response_encoding: String,
}

// ---- Response structs ------------------------------------------------------

#[derive(Debug, Clone)]
pub struct ListPortsResult {
    pub count: usize,
    pub ports: Vec<PortInfo>,
}

#[derive(Debug, Clone)]
pub struct OpenResult {
    pub connection_id: String,
    pub port: String,
    pub baud_rate: u32,
}

#[derive(Debug, Clone)]
pub struct CloseResult {
    pub connection_id: String,
}

#[derive(Debug, Clone)]
pub struct WriteResult {
    pub connection_id: String,
    pub bytes_written: usize,
    pub encoding: String,
}

#[derive(Debug, Clone)]
pub struct ReadResult {
    pub connection_id: String,
    pub bytes_read: usize,
    pub encoding: String,
    pub data: String,
    pub timeout_ms: u64,
    pub elapsed_ms: u64,
}

#[derive(Debug, Clone)]
pub struct FlushResult {
    pub connection_id: String,
    pub target: FlushTarget,
}

#[derive(Debug, Clone)]
pub struct SetDtrRtsResult {
    pub connection_id: String,
    pub dtr: bool,
    pub rts: bool,
}

#[derive(Debug, Clone)]
pub struct SendBreakResult {
    pub connection_id: String,
    pub duration_ms: u64,
    pub actual_duration_ms: u64,
}

#[derive(Debug, Clone)]
pub struct SubscribeResult {
    pub connection_id: String,
    pub encoding: String,
    pub max_chunk_bytes: usize,
    pub poll_interval_ms: u64,
    pub replaced_previous: bool,
    /// The collected bytes, encoded, in blocking mode.
    pub data: Option<String>,
    pub bytes_read: Option<usize>,
    pub elapsed_ms: Option<u64>,
    pub timeout_ms: Option<u64>,
}

#[derive(Debug, Clone)]
pub struct UnsubscribeResult {
    pub connection_id: String,
    pub was_active: bool,
}

#[derive(Debug, Clone)]
pub struct WaitForResult {
    pub connection_id: String,
    pub matched: bool,
    pub data: String,
    pub bytes_read: usize,
    pub match_index: Option<usize>,
    pub timeout_ms: u64,
    pub response_encoding: String,
}

// ---- Default helpers -------------------------------------------------------

pub fn default_data_bits() -> (s: String)
    ensures
        s@ == "8"@,
{
    String::from_str("8")
}

pub fn default_stop_bits() -> (s: String)
    ensures
        s@ == "1"@,
{
    String::from_str("1")
}

pub fn default_parity() -> (s: String)
    ensures
        s@ == "none"@,
{
    String::from_str("none")
}

pub fn default_flow_control() -> (s: String)
    ensures
        s@ == "none"@,
{
    String::from_str("none")
}

pub fn default_encoding() -> (s: String)
    ensures
        s@ == "utf8"@,
{
    String::from_str("utf8")
}

pub fn default_max_bytes() -> (n: usize)
    ensures
        n == 1024,
{
    1024
}

pub fn default_flush_target() -> (t: FlushTarget)
    ensures
        t == FlushTarget::Both,
{
    FlushTarget::Both
}

pub fn default_break_duration_ms() -> (n: u64)
    ensures
        n == 250,
{
    250
}

pub fn default_wait_timeout_ms() -> (n: u64)
    ensures
        n == 2000,
{
    2000
}

pub fn default_wait_max_bytes() -> (n: usize)
    ensures
        n == 4096,
{
    4096
}

pub fn default_subscribe_chunk_bytes() -> (n: usize)
    ensures
        n == 1024,
{
    1024
}

pub fn default_subscribe_poll_ms() -> (n: u64)
    ensures
        n == 200,
{
    200
}

} // verus!
