//! The protocol engine: byte-stream capabilities, the incremental frame
//! assembler, command builders, and the master/slave exchange state
//! machines.

pub mod command;
pub mod master;
pub mod reader;
pub mod slave;
pub mod stream;

pub use command::Command;
pub use master::MasterView;
pub use master::ProtocolHandlerError;
pub use master::ProtocolMaster;
pub use master::ProtocolMasterConfig;
pub use command::ReadRegisterCommand;
pub use command::WriteRegisterCommand;
pub use reader::ProtocolReader;
pub use reader::ProtocolReaderError;
pub use reader::ReaderState;
pub use slave::ProtocolSlave;
pub use slave::ProtocolSlaveConfig;
pub use slave::ProtocolSlaveState;
pub use slave::SlaveView;
pub use stream::PollBudget;
pub use stream::StreamError;
pub use stream::StreamReader;
pub use stream::StreamWrapper;
pub use stream::StreamWriter;
pub use stream::TimeoutPredicate;
