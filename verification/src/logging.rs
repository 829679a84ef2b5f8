use vstd::prelude::*;

verus! {

/// The severity of a tracing event.
#[derive(Debug, Clone, Copy, PartialEq, Eq, Structural)]
pub enum TraceLevel {
    Trace,
    Debug,
    Info,
    Warn,
    Error,
}

/// The logging levels of the device's logging service.
#[derive(Debug, Clone, Copy, PartialEq, Eq, Structural)]
pub enum MlLogLevel {
    Fatal,
    Error,
    Warning,
    Info,
    Debug,
    Verbose,
}

/// A writer that sends what it is given to the device log at one level,
/// under a tag.
pub enum LogLevelWriter {
    Fatal(String),
    Error(String),
    Warning(String),
    Info(String),
    Debug(String),
    Verbose(String),
}

/// One call of the device's logging service: level, tag and message bytes,
/// and the count of bytes the writer reports as written.
pub struct LogRecord {
    pub level: MlLogLevel,
    pub tag: String,
    pub message: Vec<u8>,
    pub written: usize,
}

/// The device level that events of a tracing level are logged at.
pub open spec fn spec_device_level(level: TraceLevel) -> MlLogLevel {
    match level {
        TraceLevel::Debug => MlLogLevel::Debug,
        TraceLevel::Error => MlLogLevel::Error,
        TraceLevel::Info => MlLogLevel::Info,
        TraceLevel::Trace => MlLogLevel::Verbose,
        TraceLevel::Warn => MlLogLevel::Warning,
    }
}

impl LogLevelWriter {
    /// The device level this writer logs at.
    pub open spec fn spec_level(&self) -> MlLogLevel {
        match self {
            LogLevelWriter::Fatal(_) => MlLogLevel::Fatal,
            LogLevelWriter::Error(_) => MlLogLevel::Error,
            LogLevelWriter::Warning(_) => MlLogLevel::Warning,
            LogLevelWriter::Info(_) => MlLogLevel::Info,
            LogLevelWriter::Debug(_) => MlLogLevel::Debug,
            LogLevelWriter::Verbose(_) => MlLogLevel::Verbose,
        }
    }

    /// The tag this writer logs under.
    pub open spec fn spec_tag(&self) -> Seq<char> {
        match self {
            LogLevelWriter::Fatal(tag) => tag@,
            LogLevelWriter::Error(tag) => tag@,
            LogLevelWriter::Warning(tag) => tag@,
            LogLevelWriter::Info(tag) => tag@,
            LogLevelWriter::Debug(tag) => tag@,
            LogLevelWriter::Verbose(tag) => tag@,
        }
    }

    /// The device level this writer logs at.
    pub fn level(&self) -> (level: MlLogLevel)
        ensures
            level == self.spec_level(),
    {
        match self {
            LogLevelWriter::Fatal(_) => MlLogLevel::Fatal,
            LogLevelWriter::Error(_) => MlLogLevel::Error,
            LogLevelWriter::Warning(_) => MlLogLevel::Warning,
            LogLevelWriter::Info(_) => MlLogLevel::Info,
            LogLevelWriter::Debug(_) => MlLogLevel::Debug,
            LogLevelWriter::Verbose(_) => MlLogLevel::Verbose,
        }
    }

    /// The tag this writer logs under.
    pub fn tag(&self) -> (tag: &String)
        ensures
            tag@ == self.spec_tag(),
    {
        match self {
            LogLevelWriter::Fatal(tag) => tag,
            LogLevelWriter::Error(tag) => tag,
            LogLevelWriter::Warning(tag) => tag,
            LogLevelWriter::Info(tag) => tag,
            LogLevelWriter::Debug(tag) => tag,
            LogLevelWriter::Verbose(tag) => tag,
        }
    }

    /// What writing `buf` sends to the device: one log call at this writer's
    /// level, under its tag, with `buf` as message; the whole of `buf` is
    /// reported as written.
    pub fn write(&mut self, buf: &[u8]) -> (record: LogRecord)
        ensures
            *final(self) == *old(self),
            record.level == old(self).spec_level(),
            record.tag@ == old(self).spec_tag(),
            record.message@ == buf@,
            record.written == buf.len(),
    {
        let level = self.level();
        let tag = self.tag().clone();
        let mut message: Vec<u8> = Vec::new();
        let mut i: usize = 0;
        while i < buf.len()
            invariant
                i <= buf.len(),
                message@ == buf@.subrange(0, i as int),
            decreases buf.len() - i,
        {
            message.push(buf[i]);
            i = i + 1;
        }
        assert(message@ == buf@);
        LogRecord { level, tag, message, written: buf.len() }
    }

    /// Flushing sends nothing: every write is logged at once.
    pub fn flush(&mut self) -> (done: Result<(), ()>)
        ensures
            *final(self) == *old(self),
            done is Ok,
    {
        Ok(())
    }
}

/// The maker of log writers that routes tracing output to the device log.
pub struct MagicLeapOneLogger {}

impl MagicLeapOneLogger {
    /// The writer for output that carries no event metadata: the info level,
    /// under the tag `stdout`.
    pub fn make_writer(&self) -> (writer: LogLevelWriter)
        ensures
            writer.spec_level() == MlLogLevel::Info,
            writer.spec_tag() == "stdout"@,
    {
        let tag = "stdout";
        let writer = LogLevelWriter::Info(tag.to_owned());
        proof {
            reveal_strlit("stdout");
        }
        writer
    }

    /// The writer for an event of `level` from `target`: the matching device
    /// level, under the target as tag.
    pub fn make_writer_for(&self, level: TraceLevel, target: &str) -> (writer: LogLevelWriter)
        ensures
            writer.spec_level() == spec_device_level(level),
            writer.spec_tag() == target@,
    {
        let tag = target.to_owned();
        match level {
            TraceLevel::Debug => LogLevelWriter::Debug(tag),
            TraceLevel::Error => LogLevelWriter::Error(tag),
            TraceLevel::Info => LogLevelWriter::Info(tag),
            TraceLevel::Trace => LogLevelWriter::Verbose(tag),
            TraceLevel::Warn => LogLevelWriter::Warning(tag),
        }
    }
}

/// Every tracing level goes to its own device level, and none to the fatal
/// level: the routing loses no distinction between severities.
pub proof fn lemma_device_levels_distinct(a: TraceLevel, b: TraceLevel)
    ensures
        spec_device_level(a) == spec_device_level(b) ==> a == b,
        spec_device_level(a) != MlLogLevel::Fatal,
{
}

} // verus!
